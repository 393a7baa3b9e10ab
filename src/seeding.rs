//! The candidate list that an empty ballot is seeded from: a comma-separated
//! list of names, each trimmed of surrounding white space, blanks skipped.
use vstd::prelude::*;

verus! {

/// The fields of `s` between commas, in order; a text without commas is one field.
pub open spec fn comma_fields(s: Seq<char>) -> Seq<Seq<char>>
    decreases s.len(),
{
    if s.len() == 0 {
        seq![Seq::<char>::empty()]
    } else {
        let f = comma_fields(s.drop_last());
        if s.last() == ',' {
            f.push(Seq::<char>::empty())
        } else {
            f.update(f.len() - 1, f.last().push(s.last()))
        }
    }
}

/// The non-empty items of `items`, in order.
pub open spec fn nonempty_of(items: Seq<Seq<char>>) -> Seq<Seq<char>>
    decreases items.len(),
{
    if items.len() == 0 {
        Seq::empty()
    } else {
        let kept = nonempty_of(items.drop_last());
        if items.last().len() > 0 {
            kept.push(items.last())
        } else {
            kept
        }
    }
}

/// A character of the Unicode `White_Space` property.
pub open spec fn is_white_space(c: char) -> bool {
    let u = c as u32;
    (0x9 <= u <= 0xd) || u == 0x20 || u == 0x85 || u == 0xa0 || u == 0x1680 || (0x2000 <= u
        <= 0x200a) || u == 0x2028 || u == 0x2029 || u == 0x202f || u == 0x205f || u == 0x3000
}

/// `s` without its leading white space.
pub open spec fn trim_start(s: Seq<char>) -> Seq<char>
    decreases s.len(),
{
    if s.len() > 0 && is_white_space(s[0]) {
        trim_start(s.drop_first())
    } else {
        s
    }
}

/// `s` without its trailing white space.
pub open spec fn trim_end(s: Seq<char>) -> Seq<char>
    decreases s.len(),
{
    if s.len() > 0 && is_white_space(s.last()) {
        trim_end(s.drop_last())
    } else {
        s
    }
}

/// `s` without its leading and trailing white space.
pub open spec fn trimmed(s: Seq<char>) -> Seq<char> {
    trim_end(trim_start(s))
}

/// Relies on `str::trim`: `s` without its leading and trailing white space,
/// white space being the characters of the Unicode `White_Space` property.
#[verifier::external_body]
fn trim_text(s: &str) -> (r: &str)
    ensures
        r@ == trimmed(s@),
{
    s.trim()
}

/// The candidate names that a list yields.
pub open spec fn candidate_names(list: Seq<char>) -> Seq<Seq<char>> {
    nonempty_of(comma_fields(list).map_values(|f: Seq<char>| trimmed(f)))
}

pub open spec fn texts(v: Seq<String>) -> Seq<Seq<char>> {
    v.map_values(|s: String| s@)
}

/// Splits `list` at every comma.
pub fn split_commas(list: &str) -> (r: Vec<String>)
    ensures
        texts(r@) == comma_fields(list@),
{
    let n = list.unicode_len();
    let mut out: Vec<String> = Vec::new();
    let mut start: usize = 0;
    let mut i: usize = 0;
    assert(list@.subrange(0, 0) =~= Seq::<char>::empty());
    assert(texts(out@).push(list@.subrange(0, 0)) =~= seq![Seq::<char>::empty()]);
    while i < n
        invariant
            n == list@.len(),
            0 <= start <= i <= n,
            comma_fields(list@.subrange(0, i as int)) == texts(out@).push(
                list@.subrange(start as int, i as int),
            ),
        decreases n - i,
    {
        let ghost done = texts(out@);
        let c = list.get_char(i);
        let ghost prefix = list@.subrange(0, i + 1);
        assert(prefix.drop_last() =~= list@.subrange(0, i as int));
        assert(prefix.last() == c);
        if c == ',' {
            let field = list.substring_char(start, i);
            out.push(field.to_owned());
            assert(texts(out@) =~= done.push(list@.subrange(start as int, i as int)));
            start = i + 1;
            assert(list@.subrange(start as int, i + 1) =~= Seq::<char>::empty());
        } else {
            assert(list@.subrange(start as int, i + 1) =~= list@.subrange(
                start as int,
                i as int,
            ).push(c));
        }
        i += 1;
    }
    let field = list.substring_char(start, n);
    let ghost done = texts(out@);
    out.push(field.to_owned());
    assert(texts(out@) =~= done.push(list@.subrange(start as int, n as int)));
    assert(list@.subrange(0, n as int) =~= list@);
    out
}

/// Keeps the non-empty items of `items`, in order.
pub fn keep_nonempty(items: Vec<String>) -> (r: Vec<String>)
    ensures
        texts(r@) == nonempty_of(texts(items@)),
{
    let n = items.len();
    let mut out: Vec<String> = Vec::new();
    let mut i: usize = 0;
    while i < n
        invariant
            n == items@.len(),
            0 <= i <= n,
            texts(out@) == nonempty_of(texts(items@.subrange(0, i as int))),
        decreases n - i,
    {
        let ghost before = texts(out@);
        let item = &items[i];
        assert(texts(items@.subrange(0, i + 1)).drop_last() =~= texts(
            items@.subrange(0, i as int),
        ));
        assert(texts(items@.subrange(0, i + 1)).last() == item@);
        if !item.as_str().is_empty() {
            out.push(item.clone());
            assert(texts(out@) =~= before.push(item@));
        }
        i += 1;
    }
    assert(items@.subrange(0, n as int) =~= items@);
    out
}

/// The candidate names in a comma-separated list: each field trimmed, blank
/// fields skipped.
pub fn parse_candidates(list: &str) -> (r: Vec<String>)
    ensures
        texts(r@) == candidate_names(list@),
{
    let fields = split_commas(list);
    let n = fields.len();
    let mut names: Vec<String> = Vec::new();
    let mut i: usize = 0;
    while i < n
        invariant
            n == fields@.len(),
            texts(fields@) == comma_fields(list@),
            0 <= i <= n,
            names@.len() == i,
            forall|j: int| 0 <= j < i ==> #[trigger] names@[j]@ == trimmed(fields@[j]@),
        decreases n - i,
    {
        assert(fields@[i as int]@ == texts(fields@)[i as int]);
        let t = trim_text(fields[i].as_str());
        names.push(t.to_owned());
        i += 1;
    }
    assert(texts(names@) =~= comma_fields(list@).map_values(|f: Seq<char>| trimmed(f)));
    keep_nonempty(names)
}

/// The names to seed the ballot with: none where candidates already exist or
/// no list is configured, else those the list yields.
pub fn candidates_to_seed(existing: u64, list: Option<&str>) -> (r: Vec<String>)
    ensures
        existing > 0 || list is None ==> r@.len() == 0,
        existing == 0 && list is Some ==> texts(r@) == candidate_names(list->0@),
{
    if existing > 0 {
        return Vec::new();
    }
    match list {
        None => Vec::new(),
        Some(l) => parse_candidates(l),
    }
}

} // verus!
