use std::path::PathBuf;

use opencut::renderer::plan::{
    build_blur_background_nodes, build_track_nodes, element_hidden, text_before,
    visible_sorted_elements, visible_track_order, ElementKind, ElementView, NodeKind, TrackRef,
};
use opencut::renderer::{MediaSource, MediaType};

fn element(kind: ElementKind, hidden: Option<bool>, start: u64, id: &str, media_id: &str) -> ElementView {
    ElementView {
        kind,
        hidden,
        start,
        id: id.to_string(),
        media_id: media_id.to_string(),
    }
}

fn source(id: &str, media_type: MediaType) -> MediaSource {
    MediaSource { id: id.to_string(), media_type, path: PathBuf::from(format!("/m/{id}")) }
}

#[test]
fn ids_compare_as_strings_do() {
    for (a, b) in [("a", "b"), ("ab", "a"), ("a", "ab"), ("", "x"), ("x", "x"), ("é", "z"), ("Z", "a")] {
        assert_eq!(text_before(a, b), a < b, "{a} < {b}");
    }
}

#[test]
fn hidden_flags_count_for_visual_elements_only() {
    assert!(element_hidden(&element(ElementKind::Video, Some(true), 0, "v", "")));
    assert!(!element_hidden(&element(ElementKind::Video, None, 0, "v", "")));
    assert!(!element_hidden(&element(ElementKind::Text, Some(false), 0, "t", "")));
    assert!(!element_hidden(&element(ElementKind::Effect, Some(true), 0, "e", "")));
    assert!(!element_hidden(&element(ElementKind::Audio, Some(true), 0, "a", "")));
}

#[test]
fn visible_elements_sort_by_start_then_id_then_place() {
    let track = vec![
        element(ElementKind::Text, None, 5, "b", ""),
        element(ElementKind::Text, Some(true), 1, "a", ""),
        element(ElementKind::Text, None, 5, "a", ""),
        element(ElementKind::Text, None, 2, "z", ""),
        element(ElementKind::Text, None, 5, "a", ""),
    ];
    assert_eq!(visible_sorted_elements(&track), vec![3, 2, 4, 0]);
    assert_eq!(visible_sorted_elements(&Vec::new()), Vec::<usize>::new());
}

#[test]
fn nodes_follow_tracks_and_skip_missing_media() {
    let media = vec![
        source("clip", MediaType::Video),
        source("pic", MediaType::Image),
        source("song", MediaType::Audio),
        source("clip", MediaType::Image),
    ];
    let first = vec![
        element(ElementKind::Image, None, 3, "i1", "pic"),
        element(ElementKind::Video, None, 1, "v1", "pic"),
        element(ElementKind::Effect, None, 0, "e1", ""),
        element(ElementKind::Audio, None, 0, "a1", "song"),
    ];
    let second = vec![
        element(ElementKind::Image, None, 0, "i2", "clip"),
        element(ElementKind::Video, None, 1, "v2", "missing"),
        element(ElementKind::Sticker, None, 2, "s", ""),
        element(ElementKind::Graphic, Some(true), 2, "g", ""),
        element(ElementKind::Text, None, 4, "t", ""),
    ];
    let plan = build_track_nodes(&vec![first, second], &media);
    assert_eq!(
        plan,
        vec![
            (0, 2, NodeKind::EffectLayer),
            (0, 0, NodeKind::Image { media: 1 }),
            (1, 0, NodeKind::Image { media: 3 }),
            (1, 2, NodeKind::Sticker),
            (1, 4, NodeKind::Text),
        ]
    );
}

#[test]
fn tracks_are_drawn_main_first_then_overlays_from_the_last() {
    assert_eq!(
        visible_track_order(&vec![false, true, false], false),
        vec![TrackRef::Main, TrackRef::Overlay(2), TrackRef::Overlay(0)]
    );
    assert_eq!(visible_track_order(&vec![false], true), vec![TrackRef::Overlay(0)]);
    assert_eq!(visible_track_order(&vec![], true), Vec::<TrackRef>::new());
}

#[test]
fn blurred_background_uses_videos_and_images_of_the_main_track() {
    let media = vec![source("clip", MediaType::Video), source("song", MediaType::Audio), source("pic", MediaType::Image)];
    let main = vec![
        element(ElementKind::Video, None, 2, "v", "pic"),
        element(ElementKind::Image, None, 1, "i", "clip"),
        element(ElementKind::Video, None, 0, "w", "song"),
        element(ElementKind::Text, None, 0, "t", ""),
        element(ElementKind::Image, Some(true), 0, "h", "pic"),
    ];
    assert_eq!(build_blur_background_nodes(&main, &media), vec![(1, 0), (0, 2)]);
}
