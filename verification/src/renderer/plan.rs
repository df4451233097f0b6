//! Which nodes the scene builder makes of the elements of the tracks: the
//! decisions of the scene builder on plain values (which elements are drawn,
//! in what order, and from which media), apart from the values it copies.

use vstd::prelude::*;
use crate::chars::{chars_of, same_text};
use super::{MediaSource, MediaType};

verus! {

/// `a` comes before `b` in the order of `str`'s `Ord` (by code points, a
/// prefix first).
pub open spec fn text_less(a: Seq<char>, b: Seq<char>) -> bool
    decreases a.len(),
{
    if a.len() == 0 {
        b.len() > 0
    } else if b.len() == 0 {
        false
    } else if a[0] != b[0] {
        (a[0] as u32) < (b[0] as u32)
    } else {
        text_less(a.drop_first(), b.drop_first())
    }
}

proof fn lemma_char_eq(a: char, b: char)
    requires
        a as u32 == b as u32,
    ensures
        a == b,
{
    assert(a as int == (a as u32) as int);
    assert(b as int == (b as u32) as int);
}

pub proof fn lemma_text_less_irreflexive(a: Seq<char>)
    ensures
        !text_less(a, a),
    decreases a.len(),
{
    if a.len() > 0 {
        lemma_text_less_irreflexive(a.drop_first());
    }
}

pub proof fn lemma_text_less_asymmetric(a: Seq<char>, b: Seq<char>)
    ensures
        text_less(a, b) ==> !text_less(b, a),
    decreases a.len(),
{
    if a.len() > 0 && b.len() > 0 && a[0] == b[0] {
        lemma_text_less_asymmetric(a.drop_first(), b.drop_first());
    }
}

pub proof fn lemma_text_less_total(a: Seq<char>, b: Seq<char>)
    ensures
        a != b ==> text_less(a, b) || text_less(b, a),
    decreases a.len(),
{
    if a.len() > 0 && b.len() > 0 {
        if a[0] == b[0] {
            lemma_text_less_total(a.drop_first(), b.drop_first());
            if a.drop_first() == b.drop_first() {
                assert(a =~= seq![a[0]] + a.drop_first());
                assert(b =~= seq![b[0]] + b.drop_first());
            }
        } else if a[0] as u32 == b[0] as u32 {
            lemma_char_eq(a[0], b[0]);
        }
    } else if a.len() == 0 && b.len() == 0 {
        assert(a =~= b);
    }
}

pub proof fn lemma_text_less_transitive(a: Seq<char>, b: Seq<char>, c: Seq<char>)
    requires
        text_less(a, b),
        text_less(b, c),
    ensures
        text_less(a, c),
    decreases a.len(),
{
    if a.len() > 0 && a[0] == b[0] && b[0] == c[0] {
        lemma_text_less_transitive(a.drop_first(), b.drop_first(), c.drop_first());
    }
}

/// Whether `a` comes before `b`, as `str`'s `<` says.
pub fn text_before(a: &str, b: &str) -> (r: bool)
    ensures
        r == text_less(a@, b@),
{
    let x = chars_of(a);
    let y = chars_of(b);
    let mut i: usize = 0;
    assert(a@.skip(0) =~= a@);
    assert(b@.skip(0) =~= b@);
    while i < x.len() && i < y.len() && x[i] == y[i]
        invariant
            i <= x.len(),
            i <= y.len(),
            x@ == a@,
            y@ == b@,
            text_less(a@, b@) == text_less(a@.skip(i as int), b@.skip(i as int)),
        decreases x.len() - i,
    {
        assert(a@.skip(i as int).drop_first() =~= a@.skip(i + 1));
        assert(b@.skip(i as int).drop_first() =~= b@.skip(i + 1));
        i += 1;
    }
    if i == x.len() {
        i < y.len()
    } else if i == y.len() {
        false
    } else {
        (x[i] as u32) < (y[i] as u32)
    }
}

/// The kinds of element on a track.
#[derive(Clone, Copy, Debug, Eq, PartialEq, Structural)]
pub enum ElementKind {
    Video,
    Image,
    Text,
    Sticker,
    Graphic,
    Effect,
    Audio,
}

/// What the scene builder reads of an element: its kind, its `hidden` flag,
/// its start time as a rank (start times compare as their ranks do), its id,
/// and the id of the media it draws from (read for videos and images only).
#[derive(Clone, Debug)]
pub struct ElementView {
    pub kind: ElementKind,
    pub hidden: Option<bool>,
    pub start: u64,
    pub id: String,
    pub media_id: String,
}

/// An element is hidden where its kind has the flag and the flag is set.
pub open spec fn hidden_element(e: ElementView) -> bool {
    match e.kind {
        ElementKind::Effect | ElementKind::Audio => false,
        _ => e.hidden == Some(true),
    }
}

/// Whether an element is hidden.
pub fn element_hidden(e: &ElementView) -> (r: bool)
    ensures
        r == hidden_element(*e),
{
    match e.kind {
        ElementKind::Effect | ElementKind::Audio => false,
        _ => match e.hidden {
            Some(h) => h,
            None => false,
        },
    }
}

/// The order of drawing: by start, then by id; elements equal in both keep
/// their order on the track.
pub open spec fn before(es: Seq<ElementView>, i: int, j: int) -> bool {
    let a = es[i];
    let b = es[j];
    ||| a.start < b.start
    ||| a.start == b.start && text_less(a.id@, b.id@)
    ||| a.start == b.start && a.id@ == b.id@ && i < j
}

/// `before` is a strict total order on the positions of a track.
pub proof fn lemma_before_order(es: Seq<ElementView>, i: int, j: int, k: int)
    ensures
        !before(es, i, i),
        before(es, i, j) ==> !before(es, j, i),
        i != j ==> before(es, i, j) || before(es, j, i),
        before(es, i, j) && before(es, j, k) ==> before(es, i, k),
{
    lemma_text_less_irreflexive(es[i].id@);
    lemma_text_less_asymmetric(es[i].id@, es[j].id@);
    lemma_text_less_total(es[i].id@, es[j].id@);
    if before(es, i, j) && before(es, j, k) {
        if text_less(es[i].id@, es[j].id@) && text_less(es[j].id@, es[k].id@) {
            lemma_text_less_transitive(es[i].id@, es[j].id@, es[k].id@);
        }
    }
}

/// The positions are in drawing order.
pub open spec fn in_order(es: Seq<ElementView>, o: Seq<usize>) -> bool {
    forall|k: int, l: int| 0 <= k < l < o.len() ==> before(es, #[trigger] o[k] as int, #[trigger] o[l] as int)
}

/// `o` lists the positions of the elements that are not hidden, each once,
/// in drawing order.
pub open spec fn is_visible_order(es: Seq<ElementView>, o: Seq<usize>) -> bool {
    &&& forall|k: int| 0 <= k < o.len() ==> #[trigger] o[k] < es.len() && !hidden_element(es[o[k] as int])
    &&& forall|i: int| 0 <= i < es.len() && !hidden_element(#[trigger] es[i]) ==> o.contains(i as usize)
    &&& in_order(es, o)
}

proof fn lemma_sorted_unique(es: Seq<ElementView>, o1: Seq<usize>, o2: Seq<usize>)
    requires
        in_order(es, o1),
        in_order(es, o2),
        forall|x: usize| o1.contains(x) <==> o2.contains(x),
    ensures
        o1 == o2,
    decreases o1.len(),
{
    if o1.len() == 0 {
        if o2.len() > 0 {
            assert(o2.contains(o2[0]));
        }
        assert(o1 =~= o2);
    } else {
        assert(o1.contains(o1[0]));
        let x = o1[0];
        let y = o2[0];
        assert(o2.contains(y));
        let k = choose|k: int| 0 <= k < o1.len() && o1[k] == y;
        let m = choose|m: int| 0 <= m < o2.len() && o2[m] == x;
        lemma_before_order(es, x as int, y as int, x as int);
        if x != y {
            assert(k > 0 && m > 0);
            assert(before(es, o1[0] as int, o1[k] as int));
            assert(before(es, o2[0] as int, o2[m] as int));
        }
        let t1 = o1.drop_first();
        let t2 = o2.drop_first();
        assert forall|z: usize| t1.contains(z) <==> t2.contains(z) by {
            if t1.contains(z) {
                let j = choose|j: int| 0 <= j < t1.len() && t1[j] == z;
                assert(o1[j + 1] == z);
                assert(o1.contains(z));
                let j2 = choose|j2: int| 0 <= j2 < o2.len() && o2[j2] == z;
                if j2 == 0 {
                    assert(before(es, o1[0] as int, o1[j + 1] as int));
                    lemma_before_order(es, z as int, z as int, z as int);
                }
                assert(t2[j2 - 1] == z);
            }
            if t2.contains(z) {
                let j = choose|j: int| 0 <= j < t2.len() && t2[j] == z;
                assert(o2[j + 1] == z);
                assert(o2.contains(z));
                let j1 = choose|j1: int| 0 <= j1 < o1.len() && o1[j1] == z;
                if j1 == 0 {
                    assert(before(es, o2[0] as int, o2[j + 1] as int));
                    lemma_before_order(es, z as int, z as int, z as int);
                }
                assert(t1[j1 - 1] == z);
            }
        }
        assert forall|k: int, l: int| 0 <= k < l < t1.len() implies before(es, #[trigger] t1[k] as int, #[trigger] t1[l] as int) by {
            assert(t1[k] == o1[k + 1] && t1[l] == o1[l + 1]);
        }
        assert forall|k: int, l: int| 0 <= k < l < t2.len() implies before(es, #[trigger] t2[k] as int, #[trigger] t2[l] as int) by {
            assert(t2[k] == o2[k + 1] && t2[l] == o2[l + 1]);
        }
        lemma_sorted_unique(es, t1, t2);
        assert(o1 =~= seq![x] + t1);
        assert(o2 =~= seq![y] + t2);
    }
}

/// There is one drawing order of a track's visible elements.
pub proof fn visible_order_is_unique(es: Seq<ElementView>, o1: Seq<usize>, o2: Seq<usize>)
    requires
        is_visible_order(es, o1),
        is_visible_order(es, o2),
    ensures
        o1 == o2,
{
    assert forall|x: usize| o1.contains(x) <==> o2.contains(x) by {
        if o1.contains(x) {
            let k = choose|k: int| 0 <= k < o1.len() && o1[k] == x;
            assert(o1[k] < es.len() && !hidden_element(es[o1[k] as int]));
            assert(!hidden_element(es[x as int]));
        }
        if o2.contains(x) {
            let k = choose|k: int| 0 <= k < o2.len() && o2[k] == x;
            assert(o2[k] < es.len() && !hidden_element(es[o2[k] as int]));
            assert(!hidden_element(es[x as int]));
        }
    }
    lemma_sorted_unique(es, o1, o2);
}

/// Whether the element at `i` is drawn before the one at `j`.
fn drawn_before(es: &Vec<ElementView>, i: usize, j: usize) -> (r: bool)
    requires
        i < es.len(),
        j < es.len(),
    ensures
        r == before(es@, i as int, j as int),
{
    let a = &es[i];
    let b = &es[j];
    if a.start != b.start {
        return a.start < b.start;
    }
    if text_before(a.id.as_str(), b.id.as_str()) {
        return true;
    }
    same_text(a.id.as_str(), b.id.as_str()) && i < j
}

/// The positions of the elements of a track that are not hidden, in drawing
/// order: by start, then by id, elements equal in both in their order on the
/// track.
pub fn visible_sorted_elements(track: &Vec<ElementView>) -> (o: Vec<usize>)
    ensures
        is_visible_order(track@, o@),
{
    let es = track;
    let mut o: Vec<usize> = Vec::new();
    let mut i: usize = 0;
    while i < es.len()
        invariant
            i <= es.len(),
            forall|k: int| 0 <= k < o.len() ==> #[trigger] o@[k] < i && !hidden_element(es@[o@[k] as int]),
            forall|x: int| 0 <= x < i && !hidden_element(#[trigger] es@[x]) ==> o@.contains(x as usize),
            in_order(es@, o@),
        decreases es.len() - i,
    {
        if !element_hidden(&es[i]) {
            let mut p = o.len();
            while p > 0 && drawn_before(es, i, o[p - 1])
                invariant
                    i < es.len(),
                    p <= o.len(),
                    forall|k: int| 0 <= k < o.len() ==> #[trigger] o@[k] < i,
                    forall|k: int| p <= k < o.len() ==> before(es@, i as int, #[trigger] o@[k] as int),
                decreases p,
            {
                p -= 1;
            }
            proof {
                assert forall|k: int| 0 <= k < p implies before(es@, #[trigger] o@[k] as int, i as int) by {
                    lemma_before_order(es@, o@[p - 1] as int, i as int, i as int);
                    lemma_before_order(es@, o@[k] as int, o@[p - 1] as int, i as int);
                    if k < p - 1 {
                        assert(before(es@, o@[k] as int, o@[p - 1] as int));
                    }
                }
            }
            let ghost old_o = o@;
            o.insert(p, i);
            proof {
                assert(o@ == old_o.insert(p as int, i));
                assert forall|k: int, l: int| 0 <= k < l < o@.len() implies before(es@, #[trigger] o@[k] as int, #[trigger] o@[l] as int) by {
                    if k < p && l < p {
                        assert(o@[k] == old_o[k] && o@[l] == old_o[l]);
                    } else if k < p && l == p {
                    } else if k < p {
                        assert(o@[k] == old_o[k] && o@[l] == old_o[l - 1]);
                    } else if k == p {
                        assert(o@[l] == old_o[l - 1]);
                    } else {
                        assert(o@[k] == old_o[k - 1] && o@[l] == old_o[l - 1]);
                    }
                }
                assert forall|x: int| 0 <= x < i + 1 && !hidden_element(#[trigger] es@[x]) implies o@.contains(x as usize) by {
                    if x == i {
                        assert(o@[p as int] == i);
                    } else {
                        assert(old_o.contains(x as usize));
                        let j = choose|j: int| 0 <= j < old_o.len() && old_o[j] == x as usize;
                        if j < p {
                            assert(o@[j] == old_o[j]);
                        } else {
                            assert(o@[j + 1] == old_o[j]);
                        }
                    }
                }
                assert forall|k: int| 0 <= k < o@.len() implies #[trigger] o@[k] < i + 1 && !hidden_element(es@[o@[k] as int]) by {
                    if k < p {
                        assert(o@[k] == old_o[k]);
                    } else if k > p {
                        assert(o@[k] == old_o[k - 1]);
                    }
                }
            }
        }
        i += 1;
    }
    o
}

/// The kind of node that an element becomes; a video or an image names the
/// position of its media in the media list.
#[derive(Clone, Copy, Debug, Eq, PartialEq, Structural)]
pub enum NodeKind {
    EffectLayer,
    Video { media: usize },
    Image { media: usize },
    Text,
    Sticker,
    Graphic,
}

/// The media that an id finds: the last in the list with that id (the later
/// entry replaces the earlier one in the map the builder makes).
pub open spec fn media_lookup(media: Seq<MediaSource>, id: Seq<char>) -> Option<int>
    decreases media.len(),
{
    if media.len() == 0 {
        None
    } else if media.last().id@ == id {
        Some(media.len() - 1)
    } else {
        media_lookup(media.drop_last(), id)
    }
}

/// The node an element becomes, if any: an effect, a text, a sticker or a
/// graphic always; a video or an image where its media is found and of its
/// type; audio never.
pub open spec fn node_for(e: ElementView, media: Seq<MediaSource>) -> Option<NodeKind> {
    match e.kind {
        ElementKind::Effect => Some(NodeKind::EffectLayer),
        ElementKind::Video => match media_lookup(media, e.media_id@) {
            Some(j) => if media[j].media_type == MediaType::Video {
                Some(NodeKind::Video { media: j as usize })
            } else {
                None
            },
            None => None,
        },
        ElementKind::Image => match media_lookup(media, e.media_id@) {
            Some(j) => if media[j].media_type == MediaType::Image {
                Some(NodeKind::Image { media: j as usize })
            } else {
                None
            },
            None => None,
        },
        ElementKind::Text => Some(NodeKind::Text),
        ElementKind::Sticker => Some(NodeKind::Sticker),
        ElementKind::Graphic => Some(NodeKind::Graphic),
        ElementKind::Audio => None,
    }
}

/// The drawing order of a track's visible elements (there is exactly one:
/// `visible_order_is_unique`).
pub open spec fn sorted_visible(es: Seq<ElementView>) -> Seq<usize> {
    choose|o: Seq<usize>| is_visible_order(es, o)
}

/// The nodes of the elements at the positions `o` of track `t`, in that
/// order: `(track, position, kind)`.
pub open spec fn plan_of(es: Seq<ElementView>, media: Seq<MediaSource>, o: Seq<usize>, t: int) -> Seq<
    (usize, usize, NodeKind),
>
    decreases o.len(),
{
    if o.len() == 0 {
        Seq::empty()
    } else {
        plan_of(es, media, o.drop_last(), t) + match node_for(es[o.last() as int], media) {
            Some(n) => seq![(t as usize, o.last(), n)],
            None => Seq::empty(),
        }
    }
}

/// The nodes of the first `n` tracks, track by track.
pub open spec fn tracks_plan(tracks: Seq<Vec<ElementView>>, media: Seq<MediaSource>, n: int) -> Seq<
    (usize, usize, NodeKind),
>
    decreases n,
{
    if n <= 0 {
        Seq::empty()
    } else {
        tracks_plan(tracks, media, n - 1) + plan_of(
            tracks[n - 1]@,
            media,
            sorted_visible(tracks[n - 1]@),
            n - 1,
        )
    }
}

proof fn lemma_lookup_bounds(media: Seq<MediaSource>, id: Seq<char>)
    ensures
        media_lookup(media, id) matches Some(j) ==> 0 <= j < media.len(),
    decreases media.len(),
{
    if media.len() > 0 {
        lemma_lookup_bounds(media.drop_last(), id);
    }
}

/// The position of the media that `id` finds.
fn find_media(media: &Vec<MediaSource>, id: &str) -> (r: Option<usize>)
    ensures
        match media_lookup(media@, id@) {
            Some(j) => r == Some(j as usize),
            None => r is None,
        },
        r matches Some(j) ==> j < media.len(),
{
    proof {
        lemma_lookup_bounds(media@, id@);
    }
    let mut i = media.len();
    assert(media@.subrange(0, i as int) =~= media@);
    while i > 0
        invariant
            i <= media.len(),
            media_lookup(media@, id@) == media_lookup(media@.subrange(0, i as int), id@),
        decreases i,
    {
        let prefix = Ghost(media@.subrange(0, i as int));
        assert(prefix@.drop_last() =~= media@.subrange(0, i - 1));
        if same_text(media[i - 1].id.as_str(), id) {
            return Some(i - 1);
        }
        i -= 1;
    }
    None
}

/// Whether a media source is of the given type.
fn media_is(media: &Vec<MediaSource>, j: usize, t: MediaType) -> (b: bool)
    requires
        j < media.len(),
    ensures
        b == (media@[j as int].media_type == t),
{
    match (media[j].media_type, t) {
        (MediaType::Video, MediaType::Video) => true,
        (MediaType::Image, MediaType::Image) => true,
        (MediaType::Audio, MediaType::Audio) => true,
        _ => false,
    }
}

/// The node an element becomes, if any.
fn node_of(e: &ElementView, media: &Vec<MediaSource>) -> (r: Option<NodeKind>)
    ensures
        r == node_for(*e, media@),
{
    let kind = e.kind;
    if kind == ElementKind::Video || kind == ElementKind::Image {
        let wanted = if kind == ElementKind::Video {
            MediaType::Video
        } else {
            MediaType::Image
        };
        match find_media(media, e.media_id.as_str()) {
            Some(j) => {
                proof {
                    lemma_lookup_bounds(media@, e.media_id@);
                }
                assert(media_lookup(media@, e.media_id@) == Some(j as int));
                if media_is(media, j, wanted) {
                    if kind == ElementKind::Video {
                        Some(NodeKind::Video { media: j })
                    } else {
                        Some(NodeKind::Image { media: j })
                    }
                } else {
                    None
                }
            },
            None => {
                assert(media_lookup(media@, e.media_id@) is None);
                assert(node_for(*e, media@) is None);
                None
            },
        }
    } else if kind == ElementKind::Effect {
        Some(NodeKind::EffectLayer)
    } else if kind == ElementKind::Text {
        Some(NodeKind::Text)
    } else if kind == ElementKind::Sticker {
        Some(NodeKind::Sticker)
    } else if kind == ElementKind::Graphic {
        Some(NodeKind::Graphic)
    } else {
        None
    }
}

/// The nodes that the tracks give, track by track and each track in drawing
/// order: `(track, position on the track, kind of node)`. Hidden elements,
/// audio, and videos and images whose media is missing or of another type
/// give none.
pub fn build_track_nodes(tracks: &Vec<Vec<ElementView>>, media: &Vec<MediaSource>) -> (plan: Vec<
    (usize, usize, NodeKind),
>)
    ensures
        plan@ == tracks_plan(tracks@, media@, tracks@.len() as int),
{
    let mut plan: Vec<(usize, usize, NodeKind)> = Vec::new();
    let mut t: usize = 0;
    while t < tracks.len()
        invariant
            t <= tracks.len(),
            plan@ == tracks_plan(tracks@, media@, t as int),
        decreases tracks.len() - t,
    {
        let es = &tracks[t];
        let order = visible_sorted_elements(es);
        proof {
            assert(is_visible_order(es@, sorted_visible(es@)));
            visible_order_is_unique(es@, order@, sorted_visible(es@));
        }
        let ghost start = plan@;
        let mut k: usize = 0;
        while k < order.len()
            invariant
                t < tracks.len(),
                es == &tracks[t as int],
                k <= order.len(),
                is_visible_order(es@, order@),
                plan@ == start + plan_of(es@, media@, order@.subrange(0, k as int), t as int),
            decreases order.len() - k,
        {
            let pos = order[k];
            assert(order@.subrange(0, k + 1).drop_last() =~= order@.subrange(0, k as int));
            match node_of(&es[pos], media) {
                Some(n) => {
                    plan.push((t, pos, n));
                },
                None => {},
            }
            proof {
                let sub = order@.subrange(0, k + 1);
                assert(sub.last() == pos);
                let tail: Seq<(usize, usize, NodeKind)> = match node_for(es@[pos as int], media@) {
                    Some(n) => seq![(t, pos, n)],
                    None => Seq::empty(),
                };
                assert(plan_of(es@, media@, sub, t as int) == plan_of(
                    es@,
                    media@,
                    order@.subrange(0, k as int),
                    t as int,
                ) + tail);
                assert(plan@ =~= start + plan_of(es@, media@, sub, t as int));
            }
            k += 1;
        }
        assert(order@.subrange(0, order@.len() as int) =~= order@);
        t += 1;
    }
    plan
}

/// A track of the scene: one of the overlay tracks, or the main track.
#[derive(Clone, Copy, Debug, Eq, PartialEq, Structural)]
pub enum TrackRef {
    Overlay(usize),
    Main,
}

/// The visible overlay tracks among the first `n`, in order.
pub open spec fn visible_overlays(hidden: Seq<bool>, n: int) -> Seq<TrackRef>
    decreases n,
{
    if n <= 0 {
        Seq::empty()
    } else if hidden[n - 1] {
        visible_overlays(hidden, n - 1)
    } else {
        visible_overlays(hidden, n - 1).push(TrackRef::Overlay((n - 1) as usize))
    }
}

/// The tracks drawn, bottom first: the visible overlay tracks in order, then
/// the main track if it is visible, the whole list reversed.
pub open spec fn track_order(overlay_hidden: Seq<bool>, main_hidden: bool) -> Seq<TrackRef> {
    let top_first = if main_hidden {
        visible_overlays(overlay_hidden, overlay_hidden.len() as int)
    } else {
        visible_overlays(overlay_hidden, overlay_hidden.len() as int).push(TrackRef::Main)
    };
    top_first.reverse()
}

/// The order in which the scene's tracks are drawn, given which overlay
/// tracks and whether the main track are hidden (audio tracks count as
/// visible).
pub fn visible_track_order(overlay_hidden: &Vec<bool>, main_hidden: bool) -> (r: Vec<TrackRef>)
    ensures
        r@ == track_order(overlay_hidden@, main_hidden),
{
    let mut listed: Vec<TrackRef> = Vec::new();
    let mut i: usize = 0;
    while i < overlay_hidden.len()
        invariant
            i <= overlay_hidden.len(),
            listed@ == visible_overlays(overlay_hidden@, i as int),
        decreases overlay_hidden.len() - i,
    {
        if !overlay_hidden[i] {
            listed.push(TrackRef::Overlay(i));
        }
        i += 1;
    }
    if !main_hidden {
        listed.push(TrackRef::Main);
    }
    let ghost top_first = listed@;
    let mut r: Vec<TrackRef> = Vec::new();
    let mut k = listed.len();
    while k > 0
        invariant
            k <= listed.len(),
            listed@ == top_first,
            r@ == top_first.subrange(k as int, top_first.len() as int).reverse(),
        decreases k,
    {
        k -= 1;
        r.push(listed[k]);
        assert(r@ =~= top_first.subrange(k as int, top_first.len() as int).reverse());
    }
    assert(top_first.subrange(0, top_first.len() as int) =~= top_first);
    r
}

/// The media that a blurred background draws for an element: a video's or an
/// image's media, where it is found and is a video or an image.
pub open spec fn blur_media_for(e: ElementView, media: Seq<MediaSource>) -> Option<usize> {
    if e.kind == ElementKind::Video || e.kind == ElementKind::Image {
        match media_lookup(media, e.media_id@) {
            Some(j) => if media[j].media_type != MediaType::Audio {
                Some(j as usize)
            } else {
                None
            },
            None => None,
        }
    } else {
        None
    }
}

/// The blurred-background nodes of the elements at the positions `o`:
/// `(position, media)`.
pub open spec fn blur_plan_of(es: Seq<ElementView>, media: Seq<MediaSource>, o: Seq<usize>) -> Seq<
    (usize, usize),
>
    decreases o.len(),
{
    if o.len() == 0 {
        Seq::empty()
    } else {
        blur_plan_of(es, media, o.drop_last()) + match blur_media_for(es[o.last() as int], media) {
            Some(j) => seq![(o.last(), j)],
            None => Seq::empty(),
        }
    }
}

/// The blurred background drawn under the scene: for each visible video or
/// image of the main track, in drawing order, its position and the media it
/// draws.
pub fn build_blur_background_nodes(main: &Vec<ElementView>, media: &Vec<MediaSource>) -> (plan: Vec<
    (usize, usize),
>)
    ensures
        plan@ == blur_plan_of(main@, media@, sorted_visible(main@)),
{
    let order = visible_sorted_elements(main);
    proof {
        assert(is_visible_order(main@, sorted_visible(main@)));
        visible_order_is_unique(main@, order@, sorted_visible(main@));
    }
    let mut plan: Vec<(usize, usize)> = Vec::new();
    let mut k: usize = 0;
    while k < order.len()
        invariant
            k <= order.len(),
            is_visible_order(main@, order@),
            plan@ == blur_plan_of(main@, media@, order@.subrange(0, k as int)),
        decreases order.len() - k,
    {
        let pos = order[k];
        assert(order@.subrange(0, k + 1).drop_last() =~= order@.subrange(0, k as int));
        let e = &main[pos];
        if e.kind == ElementKind::Video || e.kind == ElementKind::Image {
            match find_media(media, e.media_id.as_str()) {
                Some(j) => {
                    proof {
                        lemma_lookup_bounds(media@, e.media_id@);
                    }
                    if !media_is(media, j, MediaType::Audio) {
                        plan.push((pos, j));
                    }
                },
                None => {},
            }
        }
        proof {
            let sub = order@.subrange(0, k + 1);
            assert(sub.last() == pos);
            let tail: Seq<(usize, usize)> = match blur_media_for(main@[pos as int], media@) {
                Some(j) => seq![(pos, j)],
                None => Seq::empty(),
            };
            assert(plan@ =~= blur_plan_of(main@, media@, order@.subrange(0, k as int)) + tail);
        }
        k += 1;
    }
    assert(order@.subrange(0, order@.len() as int) =~= order@);
    plan
}

/// The lookup finds the last media with the id.
proof fn lemma_lookup_last(media: Seq<MediaSource>, id: Seq<char>, j: int)
    requires
        0 <= j < media.len(),
        media[j].id@ == id,
        forall|k: int| j < k < media.len() ==> (#[trigger] media[k]).id@ != id,
    ensures
        media_lookup(media, id) == Some(j),
    decreases media.len(),
{
    if j < media.len() - 1 {
        let m = media.drop_last();
        assert forall|k: int| j < k < m.len() implies (#[trigger] m[k]).id@ != id by {
            assert(m[k] == media[k]);
        }
        assert(m[j] == media[j]);
        lemma_lookup_last(m, id, j);
    }
}

/// Inserting a position into a drawing order keeps it one.
proof fn lemma_insert_in_order(es: Seq<ElementView>, o: Seq<usize>, x: usize) -> (o2: Seq<usize>)
    requires
        in_order(es, o),
        forall|k: int| 0 <= k < o.len() ==> #[trigger] o[k] != x,
    ensures
        in_order(es, o2),
        forall|y: usize| o2.contains(y) <==> (o.contains(y) || y == x),
        forall|k: int| 0 <= k < o2.len() ==> (#[trigger] o2[k] == x || o.contains(o2[k])),
    decreases o.len(),
{
    if o.len() == 0 {
        let o2 = seq![x];
        assert forall|y: usize| o2.contains(y) <==> (o.contains(y) || y == x) by {
            if o2.contains(y) {
                let k = choose|k: int| 0 <= k < o2.len() && o2[k] == y;
            }
            if y == x {
                assert(o2[0] == x);
            }
        }
        o2
    } else {
        let l = o.last();
        lemma_before_order(es, l as int, x as int, l as int);
        if before(es, l as int, x as int) {
            let o2 = o.push(x);
            assert forall|k: int, m: int| 0 <= k < m < o2.len() implies before(es, #[trigger] o2[k] as int, #[trigger] o2[m] as int) by {
                if m == o.len() {
                    if k < o.len() - 1 {
                        assert(before(es, o[k] as int, o[o.len() - 1] as int));
                        lemma_before_order(es, o[k] as int, l as int, x as int);
                    }
                } else {
                    assert(o2[k] == o[k] && o2[m] == o[m]);
                }
            }
            assert forall|y: usize| o2.contains(y) <==> (o.contains(y) || y == x) by {
                if o2.contains(y) {
                    let k = choose|k: int| 0 <= k < o2.len() && o2[k] == y;
                    if k < o.len() {
                        assert(o[k] == y);
                    }
                }
                if o.contains(y) {
                    let k = choose|k: int| 0 <= k < o.len() && o[k] == y;
                    assert(o2[k] == y);
                }
                if y == x {
                    assert(o2[o.len() as int] == x);
                }
            }
            assert forall|k: int| 0 <= k < o2.len() implies (#[trigger] o2[k] == x || o.contains(o2[k])) by {
                if k < o.len() {
                    assert(o2[k] == o[k]);
                }
            }
            o2
        } else {
            let front = o.drop_last();
            assert forall|k: int, m: int| 0 <= k < m < front.len() implies before(es, #[trigger] front[k] as int, #[trigger] front[m] as int) by {
                assert(front[k] == o[k] && front[m] == o[m]);
            }
            let o3 = lemma_insert_in_order(es, front, x);
            let o2 = o3.push(l);
            assert(before(es, x as int, l as int));
            assert forall|k: int, m: int| 0 <= k < m < o2.len() implies before(es, #[trigger] o2[k] as int, #[trigger] o2[m] as int) by {
                if m == o3.len() {
                    assert(o2[k] == o3[k]);
                    if o3[k] != x {
                        assert(front.contains(o3[k]));
                        let i = choose|i: int| 0 <= i < front.len() && front[i] == o3[k];
                        assert(before(es, o[i] as int, o[o.len() - 1] as int));
                    }
                } else {
                    assert(o2[k] == o3[k] && o2[m] == o3[m]);
                }
            }
            assert forall|y: usize| o2.contains(y) <==> (o.contains(y) || y == x) by {
                if o2.contains(y) {
                    let k = choose|k: int| 0 <= k < o2.len() && o2[k] == y;
                    if k < o3.len() {
                        assert(o3[k] == y);
                        assert(o3.contains(y));
                        if y != x {
                            let i = choose|i: int| 0 <= i < front.len() && front[i] == y;
                            assert(o[i] == y);
                        }
                    } else {
                        assert(o[o.len() - 1] == y);
                    }
                }
                if o.contains(y) {
                    let k = choose|k: int| 0 <= k < o.len() && o[k] == y;
                    if k < o.len() - 1 {
                        assert(front[k] == y);
                        assert(front.contains(y));
                        let i = choose|i: int| 0 <= i < o3.len() && o3[i] == y;
                        assert(o2[i] == y);
                    } else {
                        assert(o2[o3.len() as int] == y);
                    }
                }
                if y == x {
                    assert(o3.contains(x));
                    let i = choose|i: int| 0 <= i < o3.len() && o3[i] == x;
                    assert(o2[i] == x);
                }
            }
            assert forall|k: int| 0 <= k < o2.len() implies (#[trigger] o2[k] == x || o.contains(o2[k])) by {
                if k < o3.len() {
                    assert(o2[k] == o3[k]);
                    assert(o3.contains(o3[k]));
                } else {
                    assert(o[o.len() - 1] == o2[k]);
                }
            }
            o2
        }
    }
}

/// The visible elements among the first `n` of a track, in drawing order.
proof fn lemma_visible_prefix_order(es: Seq<ElementView>, n: int) -> (o: Seq<usize>)
    requires
        0 <= n <= es.len(),
        es.len() <= usize::MAX,
    ensures
        forall|k: int| 0 <= k < o.len() ==> #[trigger] o[k] < n && !hidden_element(es[o[k] as int]),
        forall|i: int| 0 <= i < n && !hidden_element(#[trigger] es[i]) ==> o.contains(i as usize),
        in_order(es, o),
    decreases n,
{
    if n == 0 {
        Seq::empty()
    } else {
        let o1 = lemma_visible_prefix_order(es, n - 1);
        if hidden_element(es[n - 1]) {
            o1
        } else {
            let x = (n - 1) as usize;
            assert(x as int == n - 1);
            assert forall|k: int| 0 <= k < o1.len() implies #[trigger] o1[k] != x by {
                assert(o1[k] < n - 1);
            }
            let o2 = lemma_insert_in_order(es, o1, x);
            assert forall|k: int| 0 <= k < o2.len() implies #[trigger] o2[k] < n && !hidden_element(es[o2[k] as int]) by {
                if o2[k] != x {
                    assert(o1.contains(o2[k]));
                    let i = choose|i: int| 0 <= i < o1.len() && o1[i] == o2[k];
                    assert(o1[i] < n - 1 && !hidden_element(es[o1[i] as int]));
                }
            }
            assert forall|i: int| 0 <= i < n && !hidden_element(#[trigger] es[i]) implies o2.contains(i as usize) by {
                if i < n - 1 {
                    assert(o1.contains(i as usize));
                }
            }
            o2
        }
    }
}

/// Every track has a drawing order of its visible elements.
proof fn lemma_visible_order_exists(es: Seq<ElementView>)
    requires
        es.len() <= usize::MAX,
    ensures
        is_visible_order(es, sorted_visible(es)),
{
    let o = lemma_visible_prefix_order(es, es.len() as int);
    assert(is_visible_order(es, o));
}

proof fn lemma_plan_of_contains(es: Seq<ElementView>, media: Seq<MediaSource>, o: Seq<usize>, t: int, k: int, n: NodeKind)
    requires
        0 <= k < o.len(),
        node_for(es[o[k] as int], media) == Some(n),
    ensures
        plan_of(es, media, o, t).contains((t as usize, o[k], n)),
    decreases o.len(),
{
    if k == o.len() - 1 {
        let p = plan_of(es, media, o, t);
        assert(p.last() == (t as usize, o[k], n));
        assert(p[p.len() - 1] == (t as usize, o[k], n));
    } else {
        let front = o.drop_last();
        assert(front[k] == o[k]);
        lemma_plan_of_contains(es, media, front, t, k, n);
        let p0 = plan_of(es, media, front, t);
        let i = choose|i: int| 0 <= i < p0.len() && p0[i] == (t as usize, o[k], n);
        assert(plan_of(es, media, o, t)[i] == p0[i]);
    }
}

proof fn lemma_tracks_plan_contains(tracks: Seq<Vec<ElementView>>, media: Seq<MediaSource>, n: int, t: int, x: (usize, usize, NodeKind))
    requires
        0 <= t < n <= tracks.len(),
        plan_of(tracks[t]@, media, sorted_visible(tracks[t]@), t).contains(x),
    ensures
        tracks_plan(tracks, media, n).contains(x),
    decreases n,
{
    let p = tracks_plan(tracks, media, n);
    let before_n = tracks_plan(tracks, media, n - 1);
    if t == n - 1 {
        let q = plan_of(tracks[t]@, media, sorted_visible(tracks[t]@), t);
        let i = choose|i: int| 0 <= i < q.len() && q[i] == x;
        assert(p[before_n.len() + i] == x);
    } else {
        lemma_tracks_plan_contains(tracks, media, n - 1, t, x);
        let i = choose|i: int| 0 <= i < before_n.len() && before_n[i] == x;
        assert(p[i] == x);
    }
}

/// A visible video (or image) whose media id finds a video (or image) source
/// is drawn from that source: the plan holds a node for it that names the
/// last source with that id.
pub proof fn media_elements_are_drawn_from_their_media(
    tracks: Vec<Vec<ElementView>>,
    media: Vec<MediaSource>,
    t: int,
    pos: int,
    j: int,
)
    requires
        0 <= t < tracks@.len(),
        0 <= pos < tracks@[t]@.len(),
        !hidden_element(tracks@[t]@[pos]),
        tracks@[t]@[pos].kind == ElementKind::Video || tracks@[t]@[pos].kind == ElementKind::Image,
        0 <= j < media@.len(),
        media@[j].id@ == tracks@[t]@[pos].media_id@,
        forall|k: int| j < k < media@.len() ==> (#[trigger] media@[k]).id@ != tracks@[t]@[pos].media_id@,
        tracks@[t]@[pos].kind == ElementKind::Video ==> media@[j].media_type == MediaType::Video,
        tracks@[t]@[pos].kind == ElementKind::Image ==> media@[j].media_type == MediaType::Image,
    ensures
        tracks_plan(tracks@, media@, tracks@.len() as int).contains(
            (
                t as usize,
                pos as usize,
                if tracks@[t]@[pos].kind == ElementKind::Video {
                    NodeKind::Video { media: j as usize }
                } else {
                    NodeKind::Image { media: j as usize }
                },
            ),
        ),
{
    let ts = tracks@;
    let ms = media@;
    let es = ts[t]@;
    let e = es[pos];
    assert(es.len() == ts[t].len());
    lemma_lookup_last(ms, e.media_id@, j);
    let n = if e.kind == ElementKind::Video {
        NodeKind::Video { media: j as usize }
    } else {
        NodeKind::Image { media: j as usize }
    };
    assert(node_for(e, ms) == Some(n));
    lemma_visible_order_exists(es);
    let o = sorted_visible(es);
    assert(o.contains(pos as usize));
    let k = choose|k: int| 0 <= k < o.len() && o[k] == pos as usize;
    lemma_plan_of_contains(es, ms, o, t, k, n);
    lemma_tracks_plan_contains(ts, ms, ts.len() as int, t, (t as usize, pos as usize, n));
}

} // verus!
