//! The models note: where the section of a model sits in `models.pdf`,
//! read from the `.aux` file of its LaTeX build, and the link opened on it.

use vstd::prelude::*;
use vstd::string::*;
use crate::text::{decimal, format_u64, chars_of, find_char, find_char_from, find_seq, find_seq_in, lemma_find_char_fits, lemma_find_seq_fits, parse_unsigned, parse_unsigned_chars, trim, trim_bounds};

verus! {

broadcast use vstd::string::group_string_axioms;

/// The label LaTeX records for the section of the model `dest`:
/// `\newlabel{model:<dest>}{{`.
pub open spec fn label_key(dest: Seq<char>) -> Seq<char> {
    "\\newlabel{model:"@ + dest + "}{{"@
}

/// The page of the section of `dest` according to the `.aux` text `aux`:
/// after the first `\newlabel{model:<dest>}{{`, skip the section number up
/// to its `}`, then expect `{`, and read the page number (an unsigned
/// 32-bit integer, surrounding whitespace allowed) up to the next `}`.
/// `None` when the label is missing or malformed.
pub open spec fn page_in_aux(aux: Seq<char>, dest: Seq<char>) -> Option<nat> {
    let key = label_key(dest);
    match find_seq(aux, key) {
        None => None,
        Some(i) => {
            let rest = aux.skip((i + key.len()) as int);
            match find_char(rest, '}') {
                None => None,
                Some(j) => {
                    let rest2 = rest.skip((j + 1) as int);
                    if rest2.len() > 0 && rest2[0] == '{' {
                        let rest3 = rest2.skip(1);
                        match find_char(rest3, '}') {
                            None => None,
                            Some(m) => parse_unsigned(trim(rest3.take(m as int)), u32::MAX as nat),
                        }
                    } else {
                        None
                    }
                }
            }
        }
    }
}

/// The page of the model `dest` in `models.pdf`, from the `.aux` file of
/// its build: `\modelsection` labels every section `model:<dest>`, and
/// LaTeX records `\newlabel{model:<dest>}{{<section>}{<page>}…}`.
pub fn models_page(aux: &str, dest: &str) -> (r: Option<u32>)
    ensures
        r matches Some(p) ==> page_in_aux(aux@, dest@) == Some(p as nat),
        r is None ==> page_in_aux(aux@, dest@) is None,
{
    let mut key = String::from_str("\\newlabel{model:");
    key.append(dest);
    key.append("}{{");
    let v = chars_of(aux);
    let k = chars_of(key.as_str());
    assert(k@ == label_key(dest@));
    let i = match find_seq_in(&v, &k) {
        Some(i) => i,
        None => return None,
    };
    proof {
        assert(find_seq(v@, k@) == Some(i as nat));
        lemma_find_seq_fits(v@, k@);
    }
    let p = i + k.len();
    let j = match find_char_from(&v, p, '}') {
        Some(j) => j,
        None => return None,
    };
    proof {
        lemma_find_char_fits(v@.skip(p as int), '}');
    }
    let q = p + j + 1;
    assert(v@.skip(p as int).skip(j + 1) =~= v@.skip(q as int));
    if !(q < v.len() && v[q] == '{') {
        return None;
    }
    let r0 = q + 1;
    assert(v@.skip(q as int).skip(1) =~= v@.skip(r0 as int));
    let m = match find_char_from(&v, r0, '}') {
        Some(m) => m,
        None => return None,
    };
    proof {
        lemma_find_char_fits(v@.skip(r0 as int), '}');
    }
    assert(v@.skip(r0 as int).take(m as int) =~= v@.subrange(r0 as int, (r0 + m) as int));
    let (a, b) = trim_bounds(&v, r0, r0 + m);
    match parse_unsigned_chars(&v, a, b, 0xFFFF_FFFF) {
        Some(x) => Some(x as u32),
        None => None,
    }
}

/// The fragment of the link opened on the note: the section's page when
/// the `.aux` file gives it, its named destination otherwise.
pub open spec fn fragment_text(page: Option<u32>, dest: Seq<char>) -> Seq<char> {
    match page {
        Some(p) => "page="@ + decimal(p as nat),
        None => "nameddest="@ + dest,
    }
}

/// The fragment of the link opened on the note.
pub fn pdf_fragment(page: Option<u32>, dest: &str) -> (r: String)
    ensures
        r@ == fragment_text(page, dest@),
{
    match page {
        Some(p) => {
            let mut s = String::from_str("page=");
            s.append(format_u64(p as u64).as_str());
            s
        },
        None => {
            let mut s = String::from_str("nameddest=");
            s.append(dest);
            s
        },
    }
}

/// `s` with every space written `%20`.
pub open spec fn escape_spaces(s: Seq<char>) -> Seq<char>
    decreases s.len(),
{
    if s.len() == 0 {
        s
    } else {
        escape_spaces(s.drop_last()) + if s.last() == ' ' { "%20"@ } else { seq![s.last()] }
    }
}

/// The link opened on the local note: `file://<path>#<fragment>`, the
/// spaces of the path escaped.
pub fn pdf_url(path: &str, fragment: &str) -> (r: String)
    ensures
        r@ == "file://"@ + escape_spaces(path@) + "#"@ + fragment@,
{
    let mut s = String::from_str("file://");
    let v = chars_of(path);
    let mut i: usize = 0;
    let ghost start = s@;
    while i < v.len()
        invariant
            i <= v@.len(),
            v@ == path@,
            start == "file://"@,
            s@ == start + escape_spaces(v@.take(i as int)),
        decreases v@.len() - i,
    {
        assert(v@.take(i + 1).drop_last() =~= v@.take(i as int));
        if v[i] == ' ' {
            s.append("%20");
        } else {
            s.append(path.substring_char(i, i + 1));
            assert(path@.subrange(i as int, i + 1) =~= seq![v@[i as int]]);
        }
        assert(s@ =~= start + escape_spaces(v@.take(i + 1)));
        i = i + 1;
    }
    assert(v@.take(v@.len() as int) =~= v@);
    s.append("#");
    s.append(fragment);
    s
}

/// The browsers tried, in order of preference (Safari last: its viewer
/// ignores the page fragment).
pub open spec fn browser_name(i: int) -> Seq<char> {
    if i == 0 { "Firefox"@ }
    else if i == 1 { "Google Chrome"@ }
    else if i == 2 { "Chromium"@ }
    else if i == 3 { "Microsoft Edge"@ }
    else if i == 4 { "Brave Browser"@ }
    else { "Safari"@ }
}

/// The first installed browser of the preference list (`installed[i]`
/// says whether the i-th is), Safari when none is.
pub fn preferred_browser(installed: &[bool; 6]) -> (r: &'static str)
    ensures
        exists|k: int| 0 <= k < 6 && r@ == browser_name(k) && (installed@[k] || k == 5)
            && forall|j: int| 0 <= j < k ==> !#[trigger] installed@[j],
{
    let names: [&'static str; 6] = ["Firefox", "Google Chrome", "Chromium", "Microsoft Edge", "Brave Browser", "Safari"];
    let mut i: usize = 0;
    while i < 5
        invariant
            i <= 5,
            names@ == seq!["Firefox", "Google Chrome", "Chromium", "Microsoft Edge", "Brave Browser", "Safari"],
            forall|j: int| 0 <= j < i ==> !#[trigger] installed@[j],
        decreases 5 - i,
    {
        if installed[i] {
            assert(names@[i as int]@ == browser_name(i as int));
            return names[i];
        }
        i = i + 1;
    }
    assert(names@[5]@ == browser_name(5));
    names[5]
}

} // verus!
