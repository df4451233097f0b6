//! The CSS named colors.

use vstd::prelude::*;
use crate::chars::same_text;

verus! {

/// The CSS named colors (lower case) and their red, green and blue bytes.
pub open spec fn named_rgb(name: Seq<char>) -> Option<(u8, u8, u8)> {
    if name == "aliceblue"@ {
        Some((240u8, 248u8, 255u8))
    } else if name == "antiquewhite"@ {
        Some((250u8, 235u8, 215u8))
    } else if name == "aqua"@ {
        Some((0u8, 255u8, 255u8))
    } else if name == "aquamarine"@ {
        Some((127u8, 255u8, 212u8))
    } else if name == "azure"@ {
        Some((240u8, 255u8, 255u8))
    } else if name == "beige"@ {
        Some((245u8, 245u8, 220u8))
    } else if name == "bisque"@ {
        Some((255u8, 228u8, 196u8))
    } else if name == "black"@ {
        Some((0u8, 0u8, 0u8))
    } else if name == "blanchedalmond"@ {
        Some((255u8, 235u8, 205u8))
    } else if name == "blue"@ {
        Some((0u8, 0u8, 255u8))
    } else if name == "blueviolet"@ {
        Some((138u8, 43u8, 226u8))
    } else if name == "brown"@ {
        Some((165u8, 42u8, 42u8))
    } else if name == "burlywood"@ {
        Some((222u8, 184u8, 135u8))
    } else if name == "cadetblue"@ {
        Some((95u8, 158u8, 160u8))
    } else if name == "chartreuse"@ {
        Some((127u8, 255u8, 0u8))
    } else if name == "chocolate"@ {
        Some((210u8, 105u8, 30u8))
    } else if name == "coral"@ {
        Some((255u8, 127u8, 80u8))
    } else if name == "cornflowerblue"@ {
        Some((100u8, 149u8, 237u8))
    } else if name == "cornsilk"@ {
        Some((255u8, 248u8, 220u8))
    } else if name == "crimson"@ {
        Some((220u8, 20u8, 60u8))
    } else if name == "cyan"@ {
        Some((0u8, 255u8, 255u8))
    } else if name == "darkblue"@ {
        Some((0u8, 0u8, 139u8))
    } else if name == "darkcyan"@ {
        Some((0u8, 139u8, 139u8))
    } else if name == "darkgoldenrod"@ {
        Some((184u8, 134u8, 11u8))
    } else if name == "darkgray"@ {
        Some((169u8, 169u8, 169u8))
    } else if name == "darkgreen"@ {
        Some((0u8, 100u8, 0u8))
    } else if name == "darkgrey"@ {
        Some((169u8, 169u8, 169u8))
    } else if name == "darkkhaki"@ {
        Some((189u8, 183u8, 107u8))
    } else if name == "darkmagenta"@ {
        Some((139u8, 0u8, 139u8))
    } else if name == "darkolivegreen"@ {
        Some((85u8, 107u8, 47u8))
    } else if name == "darkorange"@ {
        Some((255u8, 140u8, 0u8))
    } else if name == "darkorchid"@ {
        Some((153u8, 50u8, 204u8))
    } else if name == "darkred"@ {
        Some((139u8, 0u8, 0u8))
    } else if name == "darksalmon"@ {
        Some((233u8, 150u8, 122u8))
    } else if name == "darkseagreen"@ {
        Some((143u8, 188u8, 143u8))
    } else if name == "darkslateblue"@ {
        Some((72u8, 61u8, 139u8))
    } else if name == "darkslategray"@ {
        Some((47u8, 79u8, 79u8))
    } else if name == "darkslategrey"@ {
        Some((47u8, 79u8, 79u8))
    } else if name == "darkturquoise"@ {
        Some((0u8, 206u8, 209u8))
    } else if name == "darkviolet"@ {
        Some((148u8, 0u8, 211u8))
    } else if name == "deeppink"@ {
        Some((255u8, 20u8, 147u8))
    } else if name == "deepskyblue"@ {
        Some((0u8, 191u8, 255u8))
    } else if name == "dimgray"@ {
        Some((105u8, 105u8, 105u8))
    } else if name == "dimgrey"@ {
        Some((105u8, 105u8, 105u8))
    } else if name == "dodgerblue"@ {
        Some((30u8, 144u8, 255u8))
    } else if name == "firebrick"@ {
        Some((178u8, 34u8, 34u8))
    } else if name == "floralwhite"@ {
        Some((255u8, 250u8, 240u8))
    } else if name == "forestgreen"@ {
        Some((34u8, 139u8, 34u8))
    } else if name == "fuchsia"@ {
        Some((255u8, 0u8, 255u8))
    } else if name == "gainsboro"@ {
        Some((220u8, 220u8, 220u8))
    } else if name == "ghostwhite"@ {
        Some((248u8, 248u8, 255u8))
    } else if name == "gold"@ {
        Some((255u8, 215u8, 0u8))
    } else if name == "goldenrod"@ {
        Some((218u8, 165u8, 32u8))
    } else if name == "gray"@ {
        Some((128u8, 128u8, 128u8))
    } else if name == "green"@ {
        Some((0u8, 128u8, 0u8))
    } else if name == "greenyellow"@ {
        Some((173u8, 255u8, 47u8))
    } else if name == "grey"@ {
        Some((128u8, 128u8, 128u8))
    } else if name == "honeydew"@ {
        Some((240u8, 255u8, 240u8))
    } else if name == "hotpink"@ {
        Some((255u8, 105u8, 180u8))
    } else if name == "indianred"@ {
        Some((205u8, 92u8, 92u8))
    } else if name == "indigo"@ {
        Some((75u8, 0u8, 130u8))
    } else if name == "ivory"@ {
        Some((255u8, 255u8, 240u8))
    } else if name == "khaki"@ {
        Some((240u8, 230u8, 140u8))
    } else if name == "lavender"@ {
        Some((230u8, 230u8, 250u8))
    } else if name == "lavenderblush"@ {
        Some((255u8, 240u8, 245u8))
    } else if name == "lawngreen"@ {
        Some((124u8, 252u8, 0u8))
    } else if name == "lemonchiffon"@ {
        Some((255u8, 250u8, 205u8))
    } else if name == "lightblue"@ {
        Some((173u8, 216u8, 230u8))
    } else if name == "lightcoral"@ {
        Some((240u8, 128u8, 128u8))
    } else if name == "lightcyan"@ {
        Some((224u8, 255u8, 255u8))
    } else if name == "lightgoldenrodyellow"@ {
        Some((250u8, 250u8, 210u8))
    } else if name == "lightgray"@ {
        Some((211u8, 211u8, 211u8))
    } else if name == "lightgreen"@ {
        Some((144u8, 238u8, 144u8))
    } else if name == "lightgrey"@ {
        Some((211u8, 211u8, 211u8))
    } else if name == "lightpink"@ {
        Some((255u8, 182u8, 193u8))
    } else if name == "lightsalmon"@ {
        Some((255u8, 160u8, 122u8))
    } else if name == "lightseagreen"@ {
        Some((32u8, 178u8, 170u8))
    } else if name == "lightskyblue"@ {
        Some((135u8, 206u8, 250u8))
    } else if name == "lightslategray"@ {
        Some((119u8, 136u8, 153u8))
    } else if name == "lightslategrey"@ {
        Some((119u8, 136u8, 153u8))
    } else if name == "lightsteelblue"@ {
        Some((176u8, 196u8, 222u8))
    } else if name == "lightyellow"@ {
        Some((255u8, 255u8, 224u8))
    } else if name == "lime"@ {
        Some((0u8, 255u8, 0u8))
    } else if name == "limegreen"@ {
        Some((50u8, 205u8, 50u8))
    } else if name == "linen"@ {
        Some((250u8, 240u8, 230u8))
    } else if name == "magenta"@ {
        Some((255u8, 0u8, 255u8))
    } else if name == "maroon"@ {
        Some((128u8, 0u8, 0u8))
    } else if name == "mediumaquamarine"@ {
        Some((102u8, 205u8, 170u8))
    } else if name == "mediumblue"@ {
        Some((0u8, 0u8, 205u8))
    } else if name == "mediumorchid"@ {
        Some((186u8, 85u8, 211u8))
    } else if name == "mediumpurple"@ {
        Some((147u8, 112u8, 219u8))
    } else if name == "mediumseagreen"@ {
        Some((60u8, 179u8, 113u8))
    } else if name == "mediumslateblue"@ {
        Some((123u8, 104u8, 238u8))
    } else if name == "mediumspringgreen"@ {
        Some((0u8, 250u8, 154u8))
    } else if name == "mediumturquoise"@ {
        Some((72u8, 209u8, 204u8))
    } else if name == "mediumvioletred"@ {
        Some((199u8, 21u8, 133u8))
    } else if name == "midnightblue"@ {
        Some((25u8, 25u8, 112u8))
    } else if name == "mintcream"@ {
        Some((245u8, 255u8, 250u8))
    } else if name == "mistyrose"@ {
        Some((255u8, 228u8, 225u8))
    } else if name == "moccasin"@ {
        Some((255u8, 228u8, 181u8))
    } else if name == "navajowhite"@ {
        Some((255u8, 222u8, 173u8))
    } else if name == "navy"@ {
        Some((0u8, 0u8, 128u8))
    } else if name == "oldlace"@ {
        Some((253u8, 245u8, 230u8))
    } else if name == "olive"@ {
        Some((128u8, 128u8, 0u8))
    } else if name == "olivedrab"@ {
        Some((107u8, 142u8, 35u8))
    } else if name == "orange"@ {
        Some((255u8, 165u8, 0u8))
    } else if name == "orangered"@ {
        Some((255u8, 69u8, 0u8))
    } else if name == "orchid"@ {
        Some((218u8, 112u8, 214u8))
    } else if name == "palegoldenrod"@ {
        Some((238u8, 232u8, 170u8))
    } else if name == "palegreen"@ {
        Some((152u8, 251u8, 152u8))
    } else if name == "paleturquoise"@ {
        Some((175u8, 238u8, 238u8))
    } else if name == "palevioletred"@ {
        Some((219u8, 112u8, 147u8))
    } else if name == "papayawhip"@ {
        Some((255u8, 239u8, 213u8))
    } else if name == "peachpuff"@ {
        Some((255u8, 218u8, 185u8))
    } else if name == "peru"@ {
        Some((205u8, 133u8, 63u8))
    } else if name == "pink"@ {
        Some((255u8, 192u8, 203u8))
    } else if name == "plum"@ {
        Some((221u8, 160u8, 221u8))
    } else if name == "powderblue"@ {
        Some((176u8, 224u8, 230u8))
    } else if name == "purple"@ {
        Some((128u8, 0u8, 128u8))
    } else if name == "rebeccapurple"@ {
        Some((102u8, 51u8, 153u8))
    } else if name == "red"@ {
        Some((255u8, 0u8, 0u8))
    } else if name == "rosybrown"@ {
        Some((188u8, 143u8, 143u8))
    } else if name == "royalblue"@ {
        Some((65u8, 105u8, 225u8))
    } else if name == "saddlebrown"@ {
        Some((139u8, 69u8, 19u8))
    } else if name == "salmon"@ {
        Some((250u8, 128u8, 114u8))
    } else if name == "sandybrown"@ {
        Some((244u8, 164u8, 96u8))
    } else if name == "seagreen"@ {
        Some((46u8, 139u8, 87u8))
    } else if name == "seashell"@ {
        Some((255u8, 245u8, 238u8))
    } else if name == "sienna"@ {
        Some((160u8, 82u8, 45u8))
    } else if name == "silver"@ {
        Some((192u8, 192u8, 192u8))
    } else if name == "skyblue"@ {
        Some((135u8, 206u8, 235u8))
    } else if name == "slateblue"@ {
        Some((106u8, 90u8, 205u8))
    } else if name == "slategray"@ {
        Some((112u8, 128u8, 144u8))
    } else if name == "slategrey"@ {
        Some((112u8, 128u8, 144u8))
    } else if name == "snow"@ {
        Some((255u8, 250u8, 250u8))
    } else if name == "springgreen"@ {
        Some((0u8, 255u8, 127u8))
    } else if name == "steelblue"@ {
        Some((70u8, 130u8, 180u8))
    } else if name == "tan"@ {
        Some((210u8, 180u8, 140u8))
    } else if name == "teal"@ {
        Some((0u8, 128u8, 128u8))
    } else if name == "thistle"@ {
        Some((216u8, 191u8, 216u8))
    } else if name == "tomato"@ {
        Some((255u8, 99u8, 71u8))
    } else if name == "turquoise"@ {
        Some((64u8, 224u8, 208u8))
    } else if name == "violet"@ {
        Some((238u8, 130u8, 238u8))
    } else if name == "wheat"@ {
        Some((245u8, 222u8, 179u8))
    } else if name == "white"@ {
        Some((255u8, 255u8, 255u8))
    } else if name == "whitesmoke"@ {
        Some((245u8, 245u8, 245u8))
    } else if name == "yellow"@ {
        Some((255u8, 255u8, 0u8))
    } else if name == "yellowgreen"@ {
        Some((154u8, 205u8, 50u8))
    } else {
        None
    }
}

/// The red, green and blue bytes of a CSS named color, given in lower case.
pub fn named_color_rgb(name: &str) -> (r: Option<(u8, u8, u8)>)
    ensures
        r == named_rgb(name@),
{
    if same_text(name, "aliceblue") {
        return Some((240, 248, 255));
    }
    if same_text(name, "antiquewhite") {
        return Some((250, 235, 215));
    }
    if same_text(name, "aqua") {
        return Some((0, 255, 255));
    }
    if same_text(name, "aquamarine") {
        return Some((127, 255, 212));
    }
    if same_text(name, "azure") {
        return Some((240, 255, 255));
    }
    if same_text(name, "beige") {
        return Some((245, 245, 220));
    }
    if same_text(name, "bisque") {
        return Some((255, 228, 196));
    }
    if same_text(name, "black") {
        return Some((0, 0, 0));
    }
    if same_text(name, "blanchedalmond") {
        return Some((255, 235, 205));
    }
    if same_text(name, "blue") {
        return Some((0, 0, 255));
    }
    if same_text(name, "blueviolet") {
        return Some((138, 43, 226));
    }
    if same_text(name, "brown") {
        return Some((165, 42, 42));
    }
    if same_text(name, "burlywood") {
        return Some((222, 184, 135));
    }
    if same_text(name, "cadetblue") {
        return Some((95, 158, 160));
    }
    if same_text(name, "chartreuse") {
        return Some((127, 255, 0));
    }
    if same_text(name, "chocolate") {
        return Some((210, 105, 30));
    }
    if same_text(name, "coral") {
        return Some((255, 127, 80));
    }
    if same_text(name, "cornflowerblue") {
        return Some((100, 149, 237));
    }
    if same_text(name, "cornsilk") {
        return Some((255, 248, 220));
    }
    if same_text(name, "crimson") {
        return Some((220, 20, 60));
    }
    if same_text(name, "cyan") {
        return Some((0, 255, 255));
    }
    if same_text(name, "darkblue") {
        return Some((0, 0, 139));
    }
    if same_text(name, "darkcyan") {
        return Some((0, 139, 139));
    }
    if same_text(name, "darkgoldenrod") {
        return Some((184, 134, 11));
    }
    if same_text(name, "darkgray") {
        return Some((169, 169, 169));
    }
    if same_text(name, "darkgreen") {
        return Some((0, 100, 0));
    }
    if same_text(name, "darkgrey") {
        return Some((169, 169, 169));
    }
    if same_text(name, "darkkhaki") {
        return Some((189, 183, 107));
    }
    if same_text(name, "darkmagenta") {
        return Some((139, 0, 139));
    }
    if same_text(name, "darkolivegreen") {
        return Some((85, 107, 47));
    }
    if same_text(name, "darkorange") {
        return Some((255, 140, 0));
    }
    if same_text(name, "darkorchid") {
        return Some((153, 50, 204));
    }
    if same_text(name, "darkred") {
        return Some((139, 0, 0));
    }
    if same_text(name, "darksalmon") {
        return Some((233, 150, 122));
    }
    if same_text(name, "darkseagreen") {
        return Some((143, 188, 143));
    }
    if same_text(name, "darkslateblue") {
        return Some((72, 61, 139));
    }
    if same_text(name, "darkslategray") {
        return Some((47, 79, 79));
    }
    if same_text(name, "darkslategrey") {
        return Some((47, 79, 79));
    }
    if same_text(name, "darkturquoise") {
        return Some((0, 206, 209));
    }
    if same_text(name, "darkviolet") {
        return Some((148, 0, 211));
    }
    if same_text(name, "deeppink") {
        return Some((255, 20, 147));
    }
    if same_text(name, "deepskyblue") {
        return Some((0, 191, 255));
    }
    if same_text(name, "dimgray") {
        return Some((105, 105, 105));
    }
    if same_text(name, "dimgrey") {
        return Some((105, 105, 105));
    }
    if same_text(name, "dodgerblue") {
        return Some((30, 144, 255));
    }
    if same_text(name, "firebrick") {
        return Some((178, 34, 34));
    }
    if same_text(name, "floralwhite") {
        return Some((255, 250, 240));
    }
    if same_text(name, "forestgreen") {
        return Some((34, 139, 34));
    }
    if same_text(name, "fuchsia") {
        return Some((255, 0, 255));
    }
    if same_text(name, "gainsboro") {
        return Some((220, 220, 220));
    }
    if same_text(name, "ghostwhite") {
        return Some((248, 248, 255));
    }
    if same_text(name, "gold") {
        return Some((255, 215, 0));
    }
    if same_text(name, "goldenrod") {
        return Some((218, 165, 32));
    }
    if same_text(name, "gray") {
        return Some((128, 128, 128));
    }
    if same_text(name, "green") {
        return Some((0, 128, 0));
    }
    if same_text(name, "greenyellow") {
        return Some((173, 255, 47));
    }
    if same_text(name, "grey") {
        return Some((128, 128, 128));
    }
    if same_text(name, "honeydew") {
        return Some((240, 255, 240));
    }
    if same_text(name, "hotpink") {
        return Some((255, 105, 180));
    }
    if same_text(name, "indianred") {
        return Some((205, 92, 92));
    }
    if same_text(name, "indigo") {
        return Some((75, 0, 130));
    }
    if same_text(name, "ivory") {
        return Some((255, 255, 240));
    }
    if same_text(name, "khaki") {
        return Some((240, 230, 140));
    }
    if same_text(name, "lavender") {
        return Some((230, 230, 250));
    }
    if same_text(name, "lavenderblush") {
        return Some((255, 240, 245));
    }
    if same_text(name, "lawngreen") {
        return Some((124, 252, 0));
    }
    if same_text(name, "lemonchiffon") {
        return Some((255, 250, 205));
    }
    if same_text(name, "lightblue") {
        return Some((173, 216, 230));
    }
    if same_text(name, "lightcoral") {
        return Some((240, 128, 128));
    }
    if same_text(name, "lightcyan") {
        return Some((224, 255, 255));
    }
    if same_text(name, "lightgoldenrodyellow") {
        return Some((250, 250, 210));
    }
    if same_text(name, "lightgray") {
        return Some((211, 211, 211));
    }
    if same_text(name, "lightgreen") {
        return Some((144, 238, 144));
    }
    if same_text(name, "lightgrey") {
        return Some((211, 211, 211));
    }
    if same_text(name, "lightpink") {
        return Some((255, 182, 193));
    }
    if same_text(name, "lightsalmon") {
        return Some((255, 160, 122));
    }
    if same_text(name, "lightseagreen") {
        return Some((32, 178, 170));
    }
    if same_text(name, "lightskyblue") {
        return Some((135, 206, 250));
    }
    if same_text(name, "lightslategray") {
        return Some((119, 136, 153));
    }
    if same_text(name, "lightslategrey") {
        return Some((119, 136, 153));
    }
    if same_text(name, "lightsteelblue") {
        return Some((176, 196, 222));
    }
    if same_text(name, "lightyellow") {
        return Some((255, 255, 224));
    }
    if same_text(name, "lime") {
        return Some((0, 255, 0));
    }
    if same_text(name, "limegreen") {
        return Some((50, 205, 50));
    }
    if same_text(name, "linen") {
        return Some((250, 240, 230));
    }
    if same_text(name, "magenta") {
        return Some((255, 0, 255));
    }
    if same_text(name, "maroon") {
        return Some((128, 0, 0));
    }
    if same_text(name, "mediumaquamarine") {
        return Some((102, 205, 170));
    }
    if same_text(name, "mediumblue") {
        return Some((0, 0, 205));
    }
    if same_text(name, "mediumorchid") {
        return Some((186, 85, 211));
    }
    if same_text(name, "mediumpurple") {
        return Some((147, 112, 219));
    }
    if same_text(name, "mediumseagreen") {
        return Some((60, 179, 113));
    }
    if same_text(name, "mediumslateblue") {
        return Some((123, 104, 238));
    }
    if same_text(name, "mediumspringgreen") {
        return Some((0, 250, 154));
    }
    if same_text(name, "mediumturquoise") {
        return Some((72, 209, 204));
    }
    if same_text(name, "mediumvioletred") {
        return Some((199, 21, 133));
    }
    if same_text(name, "midnightblue") {
        return Some((25, 25, 112));
    }
    if same_text(name, "mintcream") {
        return Some((245, 255, 250));
    }
    if same_text(name, "mistyrose") {
        return Some((255, 228, 225));
    }
    if same_text(name, "moccasin") {
        return Some((255, 228, 181));
    }
    if same_text(name, "navajowhite") {
        return Some((255, 222, 173));
    }
    if same_text(name, "navy") {
        return Some((0, 0, 128));
    }
    if same_text(name, "oldlace") {
        return Some((253, 245, 230));
    }
    if same_text(name, "olive") {
        return Some((128, 128, 0));
    }
    if same_text(name, "olivedrab") {
        return Some((107, 142, 35));
    }
    if same_text(name, "orange") {
        return Some((255, 165, 0));
    }
    if same_text(name, "orangered") {
        return Some((255, 69, 0));
    }
    if same_text(name, "orchid") {
        return Some((218, 112, 214));
    }
    if same_text(name, "palegoldenrod") {
        return Some((238, 232, 170));
    }
    if same_text(name, "palegreen") {
        return Some((152, 251, 152));
    }
    if same_text(name, "paleturquoise") {
        return Some((175, 238, 238));
    }
    if same_text(name, "palevioletred") {
        return Some((219, 112, 147));
    }
    if same_text(name, "papayawhip") {
        return Some((255, 239, 213));
    }
    if same_text(name, "peachpuff") {
        return Some((255, 218, 185));
    }
    if same_text(name, "peru") {
        return Some((205, 133, 63));
    }
    if same_text(name, "pink") {
        return Some((255, 192, 203));
    }
    if same_text(name, "plum") {
        return Some((221, 160, 221));
    }
    if same_text(name, "powderblue") {
        return Some((176, 224, 230));
    }
    if same_text(name, "purple") {
        return Some((128, 0, 128));
    }
    if same_text(name, "rebeccapurple") {
        return Some((102, 51, 153));
    }
    if same_text(name, "red") {
        return Some((255, 0, 0));
    }
    if same_text(name, "rosybrown") {
        return Some((188, 143, 143));
    }
    if same_text(name, "royalblue") {
        return Some((65, 105, 225));
    }
    if same_text(name, "saddlebrown") {
        return Some((139, 69, 19));
    }
    if same_text(name, "salmon") {
        return Some((250, 128, 114));
    }
    if same_text(name, "sandybrown") {
        return Some((244, 164, 96));
    }
    if same_text(name, "seagreen") {
        return Some((46, 139, 87));
    }
    if same_text(name, "seashell") {
        return Some((255, 245, 238));
    }
    if same_text(name, "sienna") {
        return Some((160, 82, 45));
    }
    if same_text(name, "silver") {
        return Some((192, 192, 192));
    }
    if same_text(name, "skyblue") {
        return Some((135, 206, 235));
    }
    if same_text(name, "slateblue") {
        return Some((106, 90, 205));
    }
    if same_text(name, "slategray") {
        return Some((112, 128, 144));
    }
    if same_text(name, "slategrey") {
        return Some((112, 128, 144));
    }
    if same_text(name, "snow") {
        return Some((255, 250, 250));
    }
    if same_text(name, "springgreen") {
        return Some((0, 255, 127));
    }
    if same_text(name, "steelblue") {
        return Some((70, 130, 180));
    }
    if same_text(name, "tan") {
        return Some((210, 180, 140));
    }
    if same_text(name, "teal") {
        return Some((0, 128, 128));
    }
    if same_text(name, "thistle") {
        return Some((216, 191, 216));
    }
    if same_text(name, "tomato") {
        return Some((255, 99, 71));
    }
    if same_text(name, "turquoise") {
        return Some((64, 224, 208));
    }
    if same_text(name, "violet") {
        return Some((238, 130, 238));
    }
    if same_text(name, "wheat") {
        return Some((245, 222, 179));
    }
    if same_text(name, "white") {
        return Some((255, 255, 255));
    }
    if same_text(name, "whitesmoke") {
        return Some((245, 245, 245));
    }
    if same_text(name, "yellow") {
        return Some((255, 255, 0));
    }
    if same_text(name, "yellowgreen") {
        return Some((154, 205, 50));
    }
    None
}

} // verus!
