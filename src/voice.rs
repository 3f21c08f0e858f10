use vstd::prelude::*;
use vstd::string::*;

use crate::text::{
    contains_chars, ends_with, ends_with_chars, is_sub, lower_of, lowercase, same_chars,
};

verus! {

/// Number of voices with a standard name.
pub const STANDARD_VOICE_COUNT: usize = 8;

/// Standard voice names, in the order they are tried.
pub open spec fn standard_voice_name(i: int) -> Seq<char> {
    if i == 0 {
        "m1"@
    } else if i == 1 {
        "male1"@
    } else if i == 2 {
        "f1"@
    } else if i == 3 {
        "female1"@
    } else if i == 4 {
        "m2"@
    } else if i == 5 {
        "male2"@
    } else if i == 6 {
        "f2"@
    } else {
        "female2"@
    }
}

/// The style file of each standard voice name.
pub open spec fn standard_voice_path(i: int) -> Seq<char> {
    if i == 0 || i == 1 || i == 4 {
        "assets/voice_styles/M1.json"@
    } else if i == 2 || i == 3 || i == 6 {
        "assets/voice_styles/F1.json"@
    } else if i == 5 {
        "assets/voice_styles/M2.json"@
    } else {
        "assets/voice_styles/F2.json"@
    }
}

/// The file extension of a style file.
pub open spec fn json_ext() -> Seq<char> {
    seq!['.', 'j', 's', 'o', 'n']
}

/// A voice name that names a file rather than a voice.
pub open spec fn looks_like_path(v: Seq<char>) -> bool {
    is_sub(json_ext(), v) || is_sub("/"@, v) || is_sub("\\"@, v)
}

/// The file a path-like voice name stands for: the name itself when it ends
/// in `.json`, else the name with `.json` appended.
pub open spec fn direct_path(v: Seq<char>) -> Seq<char> {
    if ends_with(v, json_ext()) {
        v
    } else {
        v + json_ext()
    }
}

/// Whether standard name `i` matches `n`: equal to it when `exact`, else
/// contained in it.
pub open spec fn name_matches(n: Seq<char>, exact: bool, i: int) -> bool {
    if exact {
        standard_voice_name(i) == n
    } else {
        is_sub(standard_voice_name(i), n)
    }
}

/// The first standard name from index `from` on that matches `n`, or the
/// number of standard names when none does.
pub open spec fn first_match(n: Seq<char>, exact: bool, from: int) -> int
    decreases STANDARD_VOICE_COUNT - from,
{
    if from >= STANDARD_VOICE_COUNT {
        STANDARD_VOICE_COUNT as int
    } else if name_matches(n, exact, from) {
        from
    } else {
        first_match(n, exact, from + 1)
    }
}

/// The standard voice chosen for a lowercased name: an exact match first,
/// else the first name contained in it.
pub open spec fn standard_choice(n: Seq<char>) -> int {
    if first_match(n, true, 0) < STANDARD_VOICE_COUNT {
        first_match(n, true, 0)
    } else {
        first_match(n, false, 0)
    }
}

/// A style file name with every trailing `.json` taken off.
pub open spec fn trim_json(s: Seq<char>) -> Seq<char>
    decreases s.len(),
{
    if s.len() >= json_ext().len() && ends_with(s, json_ext()) {
        trim_json(s.subrange(0, s.len() - json_ext().len()))
    } else {
        s
    }
}

/// A style file found in the styles directory answers a name when the
/// lowercased stem and the name contain one another.
pub open spec fn style_file_answers(file_name: Seq<char>, n: Seq<char>) -> bool {
    ends_with(file_name, json_ext()) && (is_sub(n, lower_of(trim_json(file_name))) || is_sub(
        lower_of(trim_json(file_name)),
        n,
    ))
}

/// Where to look for the style file of a requested voice.
#[derive(Clone, Debug)]
pub enum VoicePlan {
    /// No voice was named: the configured default file, if it exists.
    Default,
    /// The voice names a file: this one, if it exists.
    Direct(String),
    /// The voice has a standard name: the file of this entry of the table, if it exists.
    Standard(usize),
    /// Any other voice: a style file in the styles directory that answers
    /// this lowercased name, else a fallback file.
    Search(String),
}

/// The standard voice at index `i`: its name and its style file.
pub fn standard_voice(i: usize) -> (r: (&'static str, &'static str))
    requires
        i < STANDARD_VOICE_COUNT,
    ensures
        r.0@ == standard_voice_name(i as int),
        r.1@ == standard_voice_path(i as int),
{
    match i {
        0 => ("m1", "assets/voice_styles/M1.json"),
        1 => ("male1", "assets/voice_styles/M1.json"),
        2 => ("f1", "assets/voice_styles/F1.json"),
        3 => ("female1", "assets/voice_styles/F1.json"),
        4 => ("m2", "assets/voice_styles/M1.json"),
        5 => ("male2", "assets/voice_styles/M2.json"),
        6 => ("f2", "assets/voice_styles/F1.json"),
        _ => ("female2", "assets/voice_styles/F2.json"),
    }
}

fn find_standard(n: &str, exact: bool) -> (r: usize)
    ensures
        r == first_match(n@, exact, 0),
{
    let mut i: usize = 0;
    while i < STANDARD_VOICE_COUNT
        invariant
            0 <= i <= STANDARD_VOICE_COUNT,
            first_match(n@, exact, 0) == first_match(n@, exact, i as int),
        decreases STANDARD_VOICE_COUNT - i,
    {
        let (name, _) = standard_voice(i);
        let hit = if exact {
            same_chars(name, n)
        } else {
            contains_chars(n, name)
        };
        if hit {
            return i;
        }
        i = i + 1;
    }
    i
}

/// Decides where to look for the style file of `voice_name`.
pub fn plan_voice_lookup(voice_name: Option<&str>) -> (r: VoicePlan)
    ensures
        voice_name is None <==> r is Default,
        voice_name matches Some(v) ==> (looks_like_path(v@) <==> r is Direct),
        r matches VoicePlan::Direct(p) ==> voice_name matches Some(v) && p@ == direct_path(v@),
        r matches VoicePlan::Standard(i) ==> voice_name matches Some(v) && !looks_like_path(v@)
            && i == standard_choice(lower_of(v@)),
        r matches VoicePlan::Search(n) ==> voice_name matches Some(v) && !looks_like_path(v@)
            && n@ == lower_of(v@) && standard_choice(lower_of(v@)) >= STANDARD_VOICE_COUNT,
        voice_name matches Some(v) ==> (!looks_like_path(v@) && standard_choice(lower_of(v@))
            < STANDARD_VOICE_COUNT <==> r is Standard),
{
    let v = match voice_name {
        Some(v) => v,
        None => return VoicePlan::Default,
    };
    let ext = ".json";
    proof {
        reveal_strlit(".json");
        assert(ext@ =~= json_ext());
    }
    if contains_chars(v, ext) || contains_chars(v, "/") || contains_chars(v, "\\") {
        let owned = String::from_str(v);
        if ends_with_chars(v, ext) {
            return VoicePlan::Direct(owned);
        } else {
            return VoicePlan::Direct(owned.concat(ext));
        }
    }
    let n = lowercase(v);
    match standard_voice_for(n.as_str()) {
        Some(i) => VoicePlan::Standard(i),
        None => VoicePlan::Search(n),
    }
}

/// The standard voice for an already lowercased name `n`: an exact match
/// first, else the first standard name contained in `n`.
pub fn standard_voice_for(n: &str) -> (r: Option<usize>)
    ensures
        r matches Some(i) ==> i == standard_choice(n@) && i < STANDARD_VOICE_COUNT,
        r is None <==> standard_choice(n@) >= STANDARD_VOICE_COUNT,
{
    let exact = find_standard(n, true);
    if exact < STANDARD_VOICE_COUNT {
        return Some(exact);
    }
    let partial = find_standard(n, false);
    if partial < STANDARD_VOICE_COUNT {
        Some(partial)
    } else {
        None
    }
}

/// Takes every trailing `.json` off a style file name.
pub fn trim_json_suffixes(s: &str) -> (r: &str)
    ensures
        r@ == trim_json(s@),
{
    let mut cur = s;
    let ext = ".json";
    proof {
        reveal_strlit(".json");
        assert(ext@ =~= json_ext());
    }
    while ends_with_chars(cur, ext)
        invariant
            ext@ == json_ext(),
            trim_json(cur@) == trim_json(s@),
        decreases cur@.len(),
    {
        let n = cur.unicode_len();
        cur = cur.substring_char(0, n - 5);
    }
    cur
}

/// Whether the style file `file_name` answers the lowercased voice name `n`;
/// see `style_file_answers`.
pub fn style_file_matches(file_name: &str, n: &str) -> (r: bool)
    ensures
        r == style_file_answers(file_name@, n@),
{
    let ext = ".json";
    proof {
        reveal_strlit(".json");
        assert(ext@ =~= json_ext());
    }
    if !ends_with_chars(file_name, ext) {
        return false;
    }
    let stem = lowercase(trim_json_suffixes(file_name));
    stem_answers(stem.as_str(), n)
}

/// Whether a lowercased file stem and a lowercased voice name contain one another.
pub fn stem_answers(stem: &str, n: &str) -> (r: bool)
    ensures
        r == (is_sub(n@, stem@) || is_sub(stem@, n@)),
{
    contains_chars(stem, n) || contains_chars(n, stem)
}

/// Lowercased names of the style files that standard voices use.
pub open spec fn is_standard_file(l: Seq<char>) -> bool {
    l == "m1.json"@ || l == "f1.json"@ || l == "m2.json"@ || l == "f2.json"@
}

/// A file of the styles directory is listed beside the standard voices when
/// it is a style file, is not one of theirs, and no earlier style file had the
/// same lowercased name.
pub open spec fn listed_extra(files: Seq<String>, lowered: Seq<String>, i: int) -> bool {
    &&& ends_with(files[i]@, json_ext())
    &&& !is_standard_file(lowered[i]@)
    &&& forall|j: int|
        0 <= j < i ==> !(ends_with(files[j]@, json_ext()) && #[trigger] lowered[j]@ == lowered[i]@)
}

/// Indices below `n` of the files that are listed, in order.
pub open spec fn extra_indices(files: Seq<String>, lowered: Seq<String>, n: int) -> Seq<usize>
    decreases n,
{
    if n <= 0 {
        Seq::empty()
    } else if listed_extra(files, lowered, n - 1) {
        extra_indices(files, lowered, n - 1).push((n - 1) as usize)
    } else {
        extra_indices(files, lowered, n - 1)
    }
}

fn standard_file(l: &str) -> (r: bool)
    ensures
        r == is_standard_file(l@),
{
    same_chars(l, "m1.json") || same_chars(l, "f1.json") || same_chars(l, "m2.json") || same_chars(
        l,
        "f2.json",
    )
}

/// Which files of the styles directory a voice listing adds to the standard
/// voices; `lowered` holds the lowercase form of each file name.
pub fn extra_style_files(files: &Vec<String>, lowered: &Vec<String>) -> (r: Vec<usize>)
    requires
        files@.len() == lowered@.len(),
    ensures
        r@ == extra_indices(files@, lowered@, files@.len() as int),
{
    let ext = ".json";
    proof {
        reveal_strlit(".json");
        assert(ext@ =~= json_ext());
    }
    let n = files.len();
    let mut r: Vec<usize> = Vec::new();
    let mut i: usize = 0;
    while i < n
        invariant
            n == files@.len(),
            n == lowered@.len(),
            ext@ == json_ext(),
            0 <= i <= n,
            r@ == extra_indices(files@, lowered@, i as int),
        decreases n - i,
    {
        let mut listed = ends_with_chars(files[i].as_str(), ext) && !standard_file(lowered[i].as_str());
        let mut j: usize = 0;
        while j < i && listed
            invariant
                n == files@.len(),
                n == lowered@.len(),
                ext@ == json_ext(),
                0 <= j <= i < n,
                listed ==> ends_with(files@[i as int]@, json_ext()) && !is_standard_file(
                    lowered@[i as int]@,
                ),
                listed ==> forall|k: int|
                    0 <= k < j ==> !(ends_with(files@[k]@, json_ext()) && #[trigger] lowered@[k]@
                        == lowered@[i as int]@),
                listed || !listed_extra(files@, lowered@, i as int),
            decreases i - j,
        {
            if ends_with_chars(files[j].as_str(), ext) && same_chars(
                lowered[j].as_str(),
                lowered[i].as_str(),
            ) {
                listed = false;
            }
            j = j + 1;
        }
        assert(listed == listed_extra(files@, lowered@, i as int));
        if listed {
            r.push(i);
        }
        i = i + 1;
    }
    r
}

} // verus!
