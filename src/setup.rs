use vstd::prelude::*;

use crate::text::push_char;

verus! {

/// The pieces of `s` between occurrences of `sep`; there is always at least one.
pub open spec fn split_on(s: Seq<char>, sep: char) -> Seq<Seq<char>>
    decreases s.len(),
{
    if s.len() == 0 {
        seq![seq![]]
    } else {
        let pieces = split_on(s.drop_last(), sep);
        if s.last() == sep {
            pieces.push(seq![])
        } else {
            pieces.update(pieces.len() - 1, pieces.last().push(s.last()))
        }
    }
}

proof fn lemma_split_on_nonempty(s: Seq<char>, sep: char)
    ensures
        split_on(s, sep).len() >= 1,
    decreases s.len(),
{
    if s.len() > 0 {
        lemma_split_on_nonempty(s.drop_last(), sep);
    }
}

/// The pieces of `s` between occurrences of `sep`.
pub fn split_text(s: &str, sep: char) -> (r: Vec<String>)
    ensures
        r@.map_values(|p: String| p@) == split_on(s@, sep),
{
    let n = s.unicode_len();
    let mut done: Vec<String> = Vec::new();
    let mut current = String::new();
    let mut i: usize = 0;
    while i < n
        invariant
            n == s@.len(),
            i <= n,
            done@.map_values(|p: String| p@).push(current@) == split_on(s@.subrange(0, i as int), sep),
        decreases n - i,
    {
        let c = s.get_char(i);
        let ghost prev = s@.subrange(0, i as int);
        proof {
            assert(s@.subrange(0, i + 1).drop_last() =~= prev);
            assert(s@.subrange(0, i + 1).last() == c);
            lemma_split_on_nonempty(prev, sep);
        }
        if c == sep {
            let ghost before = done@.map_values(|p: String| p@);
            let ghost piece = current@;
            done.push(current);
            current = String::new();
            assert(done@.map_values(|p: String| p@) =~= before.push(piece));
        } else {
            push_char(&mut current, c);
        }
        i = i + 1;
        assert(done@.map_values(|p: String| p@).push(current@) =~= split_on(s@.subrange(0, i as int), sep));
    }
    assert(s@.subrange(0, n as int) =~= s@);
    let ghost before = done@.map_values(|p: String| p@);
    let ghost piece = current@;
    done.push(current);
    assert(done@.map_values(|p: String| p@) =~= before.push(piece));
    done
}

/// A link to be present from start-up: a URL and its code.
#[derive(Debug)]
pub struct InitialLink {
    pub url: String,
    pub code: String,
}

/// The links named by a list of entries: each entry whose comma-separated
/// fields number at least two gives its first field as URL and its second as
/// code; the others are skipped.
pub open spec fn initial_links_of(entries: Seq<Seq<char>>) -> Seq<(Seq<char>, Seq<char>)>
    decreases entries.len(),
{
    if entries.len() == 0 {
        seq![]
    } else {
        let earlier = initial_links_of(entries.drop_last());
        let fields = split_on(entries.last(), ',');
        if fields.len() >= 2 {
            earlier.push((fields[0], fields[1]))
        } else {
            earlier
        }
    }
}

/// The links named by a start-up list of the form `url,code;url,code`.
pub fn parse_initial_links(list: &str) -> (r: Vec<InitialLink>)
    ensures
        r@.map_values(|l: InitialLink| (l.url@, l.code@)) == initial_links_of(split_on(list@, ';')),
{
    let entries = split_text(list, ';');
    let ghost texts = entries@.map_values(|p: String| p@);
    let mut out: Vec<InitialLink> = Vec::new();
    let mut i: usize = 0;
    while i < entries.len()
        invariant
            texts == entries@.map_values(|p: String| p@),
            i <= entries.len(),
            out@.map_values(|l: InitialLink| (l.url@, l.code@)) == initial_links_of(texts.subrange(0, i as int)),
        decreases entries.len() - i,
    {
        let fields = split_text(entries[i].as_str(), ',');
        let ghost before = out@.map_values(|l: InitialLink| (l.url@, l.code@));
        proof {
            assert(texts.subrange(0, i + 1).drop_last() =~= texts.subrange(0, i as int));
            assert(texts.subrange(0, i + 1).last() == entries[i as int]@);
            lemma_split_on_nonempty(entries[i as int]@, ',');
            assert(fields@.map_values(|p: String| p@)[0] == fields@[0]@);
            assert(fields@.map_values(|p: String| p@).len() == fields.len());
            if fields.len() >= 2 {
                assert(fields@.map_values(|p: String| p@)[1] == fields@[1]@);
            }
        }
        if fields.len() >= 2 {
            out.push(InitialLink { url: fields[0].clone(), code: fields[1].clone() });
            assert(out@.map_values(|l: InitialLink| (l.url@, l.code@)) =~= before.push((fields@[0]@, fields@[1]@)));
        }
        i = i + 1;
    }
    assert(texts.subrange(0, entries.len() as int) =~= texts);
    out
}

/// The text `s` with its leading slashes removed.
pub open spec fn without_leading_slashes(s: Seq<char>) -> Seq<char>
    decreases s.len(),
{
    if s.len() > 0 && s[0] == '/' {
        without_leading_slashes(s.drop_first())
    } else {
        s
    }
}

/// The embedded asset that a request path names: the path without its
/// leading slashes, or `index.html` when nothing is left.
pub fn static_asset_path(path: &str) -> (r: String)
    ensures
        without_leading_slashes(path@).len() > 0 ==> r@ == without_leading_slashes(path@),
        without_leading_slashes(path@).len() == 0 ==> r@ == "index.html"@,
{
    let n = path.unicode_len();
    let mut k: usize = 0;
    assert(path@.subrange(0, n as int) =~= path@);
    while k < n && path.get_char(k) == '/'
        invariant
            n == path@.len(),
            k <= n,
            without_leading_slashes(path@) == without_leading_slashes(path@.subrange(k as int, n as int)),
        decreases n - k,
    {
        assert(path@.subrange(k as int, n as int).drop_first() =~= path@.subrange(k + 1, n as int));
        k = k + 1;
    }
    if k == n {
        assert(path@.subrange(k as int, n as int).len() == 0);
        "index.html".to_string()
    } else {
        let rest = path.substring_char(k, n);
        rest.to_string()
    }
}

} // verus!
