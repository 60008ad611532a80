//! Which font files are looked for, and the order in which faces are used.

use crate::text::{lemma_texts_push, texts};
use crate::window::Platform;
use vstd::prelude::*;
use vstd::string::*;

verus! {

/// The texts of a list of string slices, in order.
pub open spec fn slice_texts(s: Seq<&'static str>) -> Seq<Seq<char>> {
    s.map_values(|x: &'static str| x@)
}

/// The paths of CJK faces, the preferred one first.
pub open spec fn cjk_font_paths(platform: Platform) -> Seq<Seq<char>> {
    match platform {
        Platform::MacOs => seq![
            "/System/Library/Fonts/\u{30d2}\u{30e9}\u{30ae}\u{30ce}\u{89d2}\u{30b4}\u{30b7}\u{30c3}\u{30af} W3.ttc"@,
            "/System/Library/Fonts/\u{30d2}\u{30e9}\u{30ae}\u{30ce}\u{89d2}\u{30b4}\u{30b7}\u{30c3}\u{30af} W6.ttc"@,
            "/Library/Fonts/\u{30d2}\u{30e9}\u{30ae}\u{30ce}\u{89d2}\u{30b4}\u{30b7}\u{30c3}\u{30af} ProN W3.otf"@,
        ],
        Platform::Windows => seq![
            "C:\\Windows\\Fonts\\meiryo.ttc"@,
            "C:\\Windows\\Fonts\\YuGothM.ttc"@,
            "C:\\Windows\\Fonts\\msgothic.ttc"@,
        ],
        _ => seq![
            "/usr/share/fonts/opentype/noto/NotoSansCJK-Regular.ttc"@,
            "/usr/share/fonts/noto-cjk/NotoSansCJKjp-Regular.otf"@,
            "/usr/share/fonts/truetype/vlgothic/VL-Gothic-Regular.ttf"@,
        ],
    }
}

/// The paths of CJK faces, the preferred one first.
pub fn cjk_font_candidates(platform: Platform) -> (r: Vec<&'static str>)
    ensures
        slice_texts(r@) == cjk_font_paths(platform),
{
    let paths: Vec<&'static str> = match platform {
        Platform::MacOs => vec![
            "/System/Library/Fonts/\u{30d2}\u{30e9}\u{30ae}\u{30ce}\u{89d2}\u{30b4}\u{30b7}\u{30c3}\u{30af} W3.ttc",
            "/System/Library/Fonts/\u{30d2}\u{30e9}\u{30ae}\u{30ce}\u{89d2}\u{30b4}\u{30b7}\u{30c3}\u{30af} W6.ttc",
            "/Library/Fonts/\u{30d2}\u{30e9}\u{30ae}\u{30ce}\u{89d2}\u{30b4}\u{30b7}\u{30c3}\u{30af} ProN W3.otf",
        ],
        Platform::Windows => vec![
            "C:\\Windows\\Fonts\\meiryo.ttc",
            "C:\\Windows\\Fonts\\YuGothM.ttc",
            "C:\\Windows\\Fonts\\msgothic.ttc",
        ],
        _ => vec![
            "/usr/share/fonts/opentype/noto/NotoSansCJK-Regular.ttc",
            "/usr/share/fonts/noto-cjk/NotoSansCJKjp-Regular.otf",
            "/usr/share/fonts/truetype/vlgothic/VL-Gothic-Regular.ttf",
        ],
    };
    assert(slice_texts(paths@) =~= cjk_font_paths(platform));
    paths
}

/// The paths of bold CJK faces, the preferred one first.
pub open spec fn cjk_bold_font_paths(platform: Platform) -> Seq<Seq<char>> {
    match platform {
        Platform::MacOs => seq![
            "/System/Library/Fonts/\u{30d2}\u{30e9}\u{30ae}\u{30ce}\u{89d2}\u{30b4}\u{30b7}\u{30c3}\u{30af} W6.ttc"@,
        ],
        Platform::Windows => seq![
            "C:\\Windows\\Fonts\\meiryob.ttc"@,
            "C:\\Windows\\Fonts\\YuGothB.ttc"@,
        ],
        _ => seq![
            "/usr/share/fonts/opentype/noto/NotoSansCJK-Bold.ttc"@,
            "/usr/share/fonts/noto-cjk/NotoSansCJKjp-Bold.otf"@,
        ],
    }
}

/// The paths of bold CJK faces, the preferred one first.
pub fn cjk_bold_font_candidates(platform: Platform) -> (r: Vec<&'static str>)
    ensures
        slice_texts(r@) == cjk_bold_font_paths(platform),
{
    let paths: Vec<&'static str> = match platform {
        Platform::MacOs => vec![
            "/System/Library/Fonts/\u{30d2}\u{30e9}\u{30ae}\u{30ce}\u{89d2}\u{30b4}\u{30b7}\u{30c3}\u{30af} W6.ttc",
        ],
        Platform::Windows => vec![
            "C:\\Windows\\Fonts\\meiryob.ttc",
            "C:\\Windows\\Fonts\\YuGothB.ttc",
        ],
        _ => vec![
            "/usr/share/fonts/opentype/noto/NotoSansCJK-Bold.ttc",
            "/usr/share/fonts/noto-cjk/NotoSansCJKjp-Bold.otf",
        ],
    };
    assert(slice_texts(paths@) =~= cjk_bold_font_paths(platform));
    paths
}

/// The faces of a list of candidates: path and index in the collection.
pub open spec fn face_texts(s: Seq<(&'static str, u32)>) -> Seq<(Seq<char>, u32)> {
    s.map_values(|x: (&'static str, u32)| (x.0@, x.1))
}

/// The paths of bold Latin faces, the preferred one first, each with the index
/// of the face in the file.
pub open spec fn latin_bold_font_faces(platform: Platform) -> Seq<(Seq<char>, u32)> {
    match platform {
        Platform::MacOs => seq![
            ("/System/Library/Fonts/Helvetica.ttc"@, 1u32),
            ("/System/Library/Fonts/Supplemental/Arial Bold.ttf"@, 0u32),
        ],
        Platform::Windows => seq![
            ("C:\\Windows\\Fonts\\arialbd.ttf"@, 0u32),
            ("C:\\Windows\\Fonts\\calibrib.ttf"@, 0u32),
        ],
        _ => seq![
            ("/usr/share/fonts/truetype/dejavu/DejaVuSans-Bold.ttf"@, 0u32),
            ("/usr/share/fonts/truetype/ubuntu/Ubuntu-B.ttf"@, 0u32),
            ("/usr/share/fonts/truetype/liberation/LiberationSans-Bold.ttf"@, 0u32),
        ],
    }
}

/// Returns (path, face_index_in_collection) for Latin bold font candidates.
///
/// face_index is the TTC/OTC face index (0 for standalone TTF/OTF files).
/// macOS: Helvetica.ttc index 0 = Regular, index 1 = Bold.
pub fn latin_bold_font_candidates(platform: Platform) -> (r: Vec<(&'static str, u32)>)
    ensures
        face_texts(r@) == latin_bold_font_faces(platform),
{
    let faces: Vec<(&'static str, u32)> = match platform {
        Platform::MacOs => vec![
            ("/System/Library/Fonts/Helvetica.ttc", 1u32),
            ("/System/Library/Fonts/Supplemental/Arial Bold.ttf", 0u32),
        ],
        Platform::Windows => vec![
            ("C:\\Windows\\Fonts\\arialbd.ttf", 0u32),
            ("C:\\Windows\\Fonts\\calibrib.ttf", 0u32),
        ],
        _ => vec![
            ("/usr/share/fonts/truetype/dejavu/DejaVuSans-Bold.ttf", 0u32),
            ("/usr/share/fonts/truetype/ubuntu/Ubuntu-B.ttf", 0u32),
            ("/usr/share/fonts/truetype/liberation/LiberationSans-Bold.ttf", 0u32),
        ],
    };
    assert(face_texts(faces@) =~= latin_bold_font_faces(platform));
    faces
}

/// Whether a language code names Japanese.
pub open spec fn names_japanese(code: Seq<char>) -> bool {
    code == "ja"@
}

/// Whether a language code names Japanese.
pub fn is_japanese(code: &str) -> (r: bool)
    ensures
        r == names_japanese(code@),
{
    *code == *"ja"
}

/// Returns the appropriate CJK `y_offset` tweak value (px) for the language and
/// platform.
///
/// | Condition            | Value | Rationale                                      |
/// |----------------------|-------|------------------------------------------------|
/// | Linux (ja or en)     | 0     | Linux CJK fonts align naturally; no shift      |
/// | macOS / Windows + ja | 2     | CJK is primary typeface; small shift needed    |
/// | Windows + en         | 1     | Windows CJK glyphs sit lower on Latin baseline |
/// | macOS + en           | 3     | macOS CJK fonts need more downward compensation|
pub fn cjk_y_offset_for_en_or_ja(platform: Platform, code: &str) -> (r: u32)
    ensures
        r == if platform == Platform::Linux {
            0u32
        } else if names_japanese(code@) {
            2u32
        } else if platform == Platform::Windows {
            1u32
        } else {
            3u32
        },
{
    if platform == Platform::Linux {
        0
    } else if is_japanese(code) {
        2
    } else if platform == Platform::Windows {
        1
    } else {
        3
    }
}

/// The faces of a family other than the CJK one.
pub open spec fn without_cjk(list: Seq<Seq<char>>) -> Seq<Seq<char>>
    decreases list.len(),
{
    if list.len() == 0 {
        Seq::empty()
    } else if list.last() == "cjk"@ {
        without_cjk(list.drop_last())
    } else {
        without_cjk(list.drop_last()).push(list.last())
    }
}

/// The faces of a family, in the order of their use, once the CJK face has been
/// loaded: it goes first in Japanese, and last otherwise.
pub open spec fn family_with_cjk(list: Seq<Seq<char>>, japanese: bool) -> Seq<Seq<char>> {
    if japanese {
        seq!["cjk"@] + without_cjk(list)
    } else {
        list + seq!["cjk"@]
    }
}

/// The faces of a family, in the order of their use, once the CJK face has been
/// loaded.
pub fn add_cjk_face(list: Vec<String>, japanese: bool) -> (r: Vec<String>)
    ensures
        texts(r@) == family_with_cjk(texts(list@), japanese),
{
    if !japanese {
        let mut all = list;
        let ghost before = all@;
        let name = "cjk".to_owned();
        all.push(name);
        proof {
            lemma_texts_push(before, name);
            assert(texts(all@) =~= texts(before) + seq!["cjk"@]);
        }
        return all;
    }
    let mut faces: Vec<String> = Vec::new();
    let name = "cjk".to_owned();
    faces.push(name);
    let ghost names = texts(list@);
    let mut i: usize = 0;
    assert(texts(faces@) =~= seq!["cjk"@] + without_cjk(names.take(0)));
    while i < list.len()
        invariant
            i <= list.len(),
            names == texts(list@),
            texts(faces@) == seq!["cjk"@] + without_cjk(names.take(i as int)),
        decreases list.len() - i,
    {
        let ghost before = faces@;
        let face = list[i].clone();
        assert(names.take(i + 1).drop_last() =~= names.take(i as int));
        assert(names.take(i + 1).last() == face@);
        if *face.as_str() != *"cjk" {
            faces.push(face);
            proof {
                lemma_texts_push(before, face);
            }
        }
        assert(texts(faces@) =~= seq!["cjk"@] + without_cjk(names.take(i + 1)));
        i += 1;
    }
    assert(names.take(names.len() as int) =~= names);
    faces
}

/// The bold CJK face: one of its own, or else the regular one.
pub open spec fn bold_cjk_name(has_cjk_bold: bool, has_cjk: bool) -> Seq<Seq<char>> {
    if has_cjk_bold {
        seq!["cjk_bold"@]
    } else if has_cjk {
        seq!["cjk"@]
    } else {
        Seq::empty()
    }
}

/// The faces of the bold family, in the order of their use. A bold Latin face
/// goes first, save in Japanese; then the bold CJK face; then the last resort.
pub open spec fn bold_family_of(
    has_cjk_bold: bool,
    has_cjk: bool,
    has_latin_bold: bool,
    japanese: bool,
) -> Seq<Seq<char>> {
    let latin = if has_latin_bold && !japanese {
        seq!["latin_bold"@]
    } else {
        Seq::empty()
    };
    latin + bold_cjk_name(has_cjk_bold, has_cjk) + seq!["Ubuntu-Light"@]
}

/// The faces of the bold family, in the order of their use.
pub fn bold_family(
    has_cjk_bold: bool,
    has_cjk: bool,
    has_latin_bold: bool,
    japanese: bool,
) -> (r: Vec<String>)
    ensures
        texts(r@) == bold_family_of(has_cjk_bold, has_cjk, has_latin_bold, japanese),
{
    let mut list: Vec<String> = Vec::new();
    if has_latin_bold && !japanese {
        list.push("latin_bold".to_owned());
    }
    if has_cjk_bold {
        list.push("cjk_bold".to_owned());
    } else if has_cjk {
        list.push("cjk".to_owned());
    }
    list.push("Ubuntu-Light".to_owned());
    assert(texts(list@) =~= bold_family_of(has_cjk_bold, has_cjk, has_latin_bold, japanese));
    list
}

proof fn lemma_without_cjk(list: Seq<Seq<char>>)
    ensures
        !without_cjk(list).contains("cjk"@),
        forall|x: Seq<char>| x != "cjk"@ ==> (#[trigger] without_cjk(list).contains(x) <==> list.contains(x)),
    decreases list.len(),
{
    if list.len() > 0 {
        let rest = list.drop_last();
        let kept = without_cjk(rest);
        lemma_without_cjk(rest);
        let out = without_cjk(list);
        assert(!out.contains("cjk"@)) by {
            if out.contains("cjk"@) {
                let i = choose|i: int| 0 <= i < out.len() && out[i] == "cjk"@;
                if i < kept.len() {
                    assert(kept[i] == "cjk"@);
                }
            }
        }
        assert forall|x: Seq<char>| x != "cjk"@ implies (#[trigger] out.contains(x)
            <==> list.contains(x)) by {
            if out.contains(x) {
                let i = choose|i: int| 0 <= i < out.len() && out[i] == x;
                if i < kept.len() {
                    assert(kept[i] == x);
                    assert(kept.contains(x));
                    assert(rest.contains(x));
                    let j = choose|j: int| 0 <= j < rest.len() && rest[j] == x;
                    assert(list[j] == x);
                } else {
                    assert(list[list.len() - 1] == x);
                }
            }
            if list.contains(x) {
                let j = choose|j: int| 0 <= j < list.len() && list[j] == x;
                if j < rest.len() {
                    assert(rest[j] == x);
                    assert(kept.contains(x));
                    let i = choose|i: int| 0 <= i < kept.len() && kept[i] == x;
                    assert(out[i] == x);
                } else {
                    assert(out[out.len() - 1] == x);
                }
            }
        }
    }
}

/// In Japanese the CJK face is the first of its family and stands there once; no
/// other face is lost or gained.
pub proof fn japanese_puts_the_cjk_face_first(list: Seq<Seq<char>>, face: Seq<char>)
    ensures
        family_with_cjk(list, true)[0] == "cjk"@,
        forall|i: int|
            0 < i < family_with_cjk(list, true).len() ==> #[trigger] family_with_cjk(list, true)[i]
                != "cjk"@,
        face != "cjk"@ ==> (family_with_cjk(list, true).contains(face) <==> list.contains(face)),
{
    lemma_without_cjk(list);
    let rest = without_cjk(list);
    let family = family_with_cjk(list, true);
    assert forall|i: int| 0 < i < family.len() implies #[trigger] family[i] != "cjk"@ by {
        assert(family[i] == rest[i - 1]);
        assert(rest.contains(rest[i - 1]));
    }
    if face != "cjk"@ && family.contains(face) {
        let k = choose|k: int| 0 <= k < family.len() && family[k] == face;
        assert(rest[k - 1] == face);
        assert(rest.contains(face));
    }
    if face != "cjk"@ && list.contains(face) {
        assert(rest.contains(face));
        let k = choose|k: int| 0 <= k < rest.len() && rest[k] == face;
        assert(family[k + 1] == face);
    }
}

/// Outside Japanese the faces of a family keep their places, and the CJK face
/// comes after them.
pub proof fn other_languages_keep_the_order(list: Seq<Seq<char>>, i: int)
    requires
        0 <= i < list.len(),
    ensures
        family_with_cjk(list, false)[i] == list[i],
        family_with_cjk(list, false).last() == "cjk"@,
{
}

/// The bold family always ends with the last resort.
pub proof fn bold_family_ends_with_the_last_resort(
    has_cjk_bold: bool,
    has_cjk: bool,
    has_latin_bold: bool,
    japanese: bool,
)
    ensures
        bold_family_of(has_cjk_bold, has_cjk, has_latin_bold, japanese).last() == "Ubuntu-Light"@,
{
}

/// In Japanese the other faces of a family keep their order.
pub proof fn japanese_keeps_the_order_of_other_faces(list: Seq<Seq<char>>)
    ensures
        family_with_cjk(list, true).skip(1) == list.filter(|face: Seq<char>| face != "cjk"@),
        family_with_cjk(list, true).len() > 0,
        family_with_cjk(list, false).len() == list.len() + 1,
{
    lemma_without_cjk_is_filter(list);
    assert(family_with_cjk(list, true).skip(1) =~= without_cjk(list));
}

proof fn lemma_without_cjk_is_filter(list: Seq<Seq<char>>)
    ensures
        without_cjk(list) == list.filter(|face: Seq<char>| face != "cjk"@),
    decreases list.len(),
{
    reveal(Seq::filter);
    if list.len() > 0 {
        lemma_without_cjk_is_filter(list.drop_last());
    }
}

/// A bold Latin face that is at hand is the first of the bold family, save in Japanese,
/// where it is left out. Of the CJK faces the bold one goes before the regular one, and
/// each is used only where it is at hand.
pub proof fn bold_family_prefers_bold_faces(
    has_cjk_bold: bool,
    has_cjk: bool,
    has_latin_bold: bool,
    japanese: bool,
)
    ensures
        ({
            let family = bold_family_of(has_cjk_bold, has_cjk, has_latin_bold, japanese);
            let latin = has_latin_bold && !japanese;
            let at_cjk = if latin {
                1int
            } else {
                0int
            };
            &&& latin ==> family[0] == "latin_bold"@
            &&& has_cjk_bold ==> family[at_cjk] == "cjk_bold"@
            &&& !has_cjk_bold && has_cjk ==> family[at_cjk] == "cjk"@
            &&& family.len() == 1 + at_cjk + if has_cjk_bold || has_cjk {
                1int
            } else {
                0int
            }
            &&& family.last() == "Ubuntu-Light"@
        }),
{
}

/// A code names Japanese exactly when it is written with a `j` and an `a`.
pub proof fn japanese_is_ja(code: Seq<char>)
    ensures
        names_japanese(code) <==> code.len() == 2 && code[0] == 'j' && code[1] == 'a',
{
    reveal_strlit("ja");
    if code.len() == 2 && code[0] == 'j' && code[1] == 'a' {
        assert(code =~= "ja"@);
    }
}

/// Each list of candidates names its files by path, in this order; what is not macOS or
/// Windows is looked up as Linux is.
pub proof fn candidates_are_those_of_the_platform(platform: Platform)
    ensures
        platform == Platform::Linux || platform == Platform::Other ==> cjk_font_paths(platform)
            == cjk_font_paths(Platform::Linux) && cjk_bold_font_paths(platform)
            == cjk_bold_font_paths(Platform::Linux) && latin_bold_font_faces(platform)
            == latin_bold_font_faces(Platform::Linux),
        cjk_font_paths(Platform::Windows).len() == 3,
        cjk_font_paths(Platform::Windows)[0] == "C:\\Windows\\Fonts\\meiryo.ttc"@,
        cjk_font_paths(Platform::Windows)[1] == "C:\\Windows\\Fonts\\YuGothM.ttc"@,
        cjk_font_paths(Platform::Windows)[2] == "C:\\Windows\\Fonts\\msgothic.ttc"@,
        cjk_bold_font_paths(Platform::Windows).len() == 2,
        cjk_bold_font_paths(Platform::Windows)[0] == "C:\\Windows\\Fonts\\meiryob.ttc"@,
        cjk_bold_font_paths(Platform::Windows)[1] == "C:\\Windows\\Fonts\\YuGothB.ttc"@,
        latin_bold_font_faces(Platform::Windows).len() == 2,
        latin_bold_font_faces(Platform::Windows)[0] == ("C:\\Windows\\Fonts\\arialbd.ttf"@, 0u32),
        latin_bold_font_faces(Platform::Windows)[1] == ("C:\\Windows\\Fonts\\calibrib.ttf"@, 0u32),
        cjk_font_paths(Platform::Linux).len() == 3,
        cjk_font_paths(Platform::Linux)[0]
            == "/usr/share/fonts/opentype/noto/NotoSansCJK-Regular.ttc"@,
        cjk_font_paths(Platform::Linux)[1]
            == "/usr/share/fonts/noto-cjk/NotoSansCJKjp-Regular.otf"@,
        cjk_font_paths(Platform::Linux)[2]
            == "/usr/share/fonts/truetype/vlgothic/VL-Gothic-Regular.ttf"@,
        cjk_bold_font_paths(Platform::Linux).len() == 2,
        cjk_bold_font_paths(Platform::Linux)[0]
            == "/usr/share/fonts/opentype/noto/NotoSansCJK-Bold.ttc"@,
        cjk_bold_font_paths(Platform::Linux)[1]
            == "/usr/share/fonts/noto-cjk/NotoSansCJKjp-Bold.otf"@,
        cjk_font_paths(Platform::MacOs).len() == 3,
        cjk_bold_font_paths(Platform::MacOs) == seq![cjk_font_paths(Platform::MacOs)[1]],
        latin_bold_font_faces(Platform::MacOs).len() == 2,
        latin_bold_font_faces(Platform::MacOs)[0] == ("/System/Library/Fonts/Helvetica.ttc"@, 1u32),
        latin_bold_font_faces(Platform::MacOs)[1] == (
            "/System/Library/Fonts/Supplemental/Arial Bold.ttf"@,
            0u32,
        ),
{
    assert(cjk_bold_font_paths(Platform::MacOs) =~= seq![cjk_font_paths(Platform::MacOs)[1]]);
}

/// Texts of candidates are taken one by one.
pub proof fn candidates_are_read_one_by_one(
    paths: Seq<&'static str>,
    faces: Seq<(&'static str, u32)>,
    i: int,
)
    ensures
        slice_texts(paths).len() == paths.len(),
        0 <= i < paths.len() ==> slice_texts(paths)[i] == paths[i]@,
        face_texts(faces).len() == faces.len(),
        0 <= i < faces.len() ==> face_texts(faces)[i] == (faces[i].0@, faces[i].1),
{
}

} // verus!
