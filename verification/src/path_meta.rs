//! Turning one remote tree-entry path into structured per-title metadata.
//!
//! A remote path has the shape
//! `<root>/<title_name>/<title_id>/<version>/<relative...>`: at least five
//! `/`-separated segments, the fifth capturing all remaining path including
//! embedded slashes. The bracket characters `[` and `]` are stripped from
//! the title-id segment.

use vstd::prelude::*;
use crate::text::{find_from_spec, lemma_find_from_spec, find_from, push_char};

verus! {

/// Position just after the `n`th `/` of `s` (position 0 for `n == 0`), or
/// `None` where `s` holds fewer than `n` slashes.
pub open spec fn sep_end(s: Seq<char>, n: nat) -> Option<int>
    decreases n,
{
    if n == 0 {
        Some(0)
    } else {
        match sep_end(s, (n - 1) as nat) {
            None => None,
            Some(p) => match find_from_spec(s, p, '/') {
                None => None,
                Some(i) => Some(i + 1),
            },
        }
    }
}

pub proof fn lemma_sep_end_bounds(s: Seq<char>, n: nat)
    ensures
        sep_end(s, n) is Some ==> 0 <= sep_end(s, n)->Some_0 <= s.len(),
    decreases n,
{
    if n > 0 {
        lemma_sep_end_bounds(s, (n - 1) as nat);
        if sep_end(s, (n - 1) as nat) is Some {
            let p = sep_end(s, (n - 1) as nat)->Some_0;
            lemma_find_from_spec(s, p, '/');
        }
    }
}

/// The path has at least `n` `/`-separated segments, that is, at least
/// `n - 1` slashes.
pub open spec fn has_segments(s: Seq<char>, n: nat) -> bool {
    n > 0 && sep_end(s, (n - 1) as nat) is Some
}

/// Segment `k` (0-based) of `s`, meaningful where the `k`th and the
/// `(k+1)`th separators both exist: the characters between them.
pub open spec fn segment(s: Seq<char>, k: nat) -> Seq<char> {
    s.subrange(sep_end(s, k)->Some_0, sep_end(s, (k + 1) as nat)->Some_0 - 1)
}

/// `s` with every `[` and `]` removed.
pub open spec fn strip_brackets_view(s: Seq<char>) -> Seq<char>
    decreases s.len(),
{
    if s.len() == 0 {
        Seq::empty()
    } else {
        let prefix = strip_brackets_view(s.drop_last());
        if s.last() == '[' || s.last() == ']' {
            prefix
        } else {
            prefix.push(s.last())
        }
    }
}

pub open spec fn parsed_title_name(p: Seq<char>) -> Seq<char> {
    segment(p, 1)
}

pub open spec fn parsed_title_id(p: Seq<char>) -> Seq<char> {
    strip_brackets_view(segment(p, 2))
}

pub open spec fn parsed_version(p: Seq<char>) -> Seq<char> {
    segment(p, 3)
}

/// Everything after the fourth slash: the original path with its first four
/// segments and their separators removed.
pub open spec fn parsed_relative_path(p: Seq<char>) -> Seq<char> {
    p.subrange(sep_end(p, 4)->Some_0, p.len() as int)
}

pub proof fn lemma_strip_brackets_concat(a: Seq<char>, b: Seq<char>)
    ensures
        strip_brackets_view(a + b) == strip_brackets_view(a) + strip_brackets_view(b),
    decreases b.len(),
{
    if b.len() == 0 {
        assert(a + b =~= a);
        assert(strip_brackets_view(b) =~= Seq::<char>::empty());
        assert(strip_brackets_view(a) + strip_brackets_view(b) =~= strip_brackets_view(a));
    } else {
        lemma_strip_brackets_concat(a, b.drop_last());
        assert((a + b).drop_last() =~= a + b.drop_last());
        assert((a + b).last() == b.last());
        if !(b.last() == '[' || b.last() == ']') {
            assert((strip_brackets_view(a) + strip_brackets_view(b.drop_last())).push(b.last())
                =~= strip_brackets_view(a) + strip_brackets_view(b.drop_last()).push(b.last()));
        }
    }
}

/// Stripping brackets from a bracket-free sequence changes nothing.
pub proof fn lemma_strip_brackets_id(s: Seq<char>)
    requires
        forall|j: int| 0 <= j < s.len() ==> s[j] != '[' && s[j] != ']',
    ensures
        strip_brackets_view(s) == s,
    decreases s.len(),
{
    if s.len() > 0 {
        lemma_strip_brackets_id(s.drop_last());
        assert(strip_brackets_view(s.drop_last()).push(s.last()) =~= s);
    }
}

/// A path with at least five segments is exactly its first four segments,
/// each followed by its separator, then the relative path: the relative
/// path is the original with the first four segments and their separators
/// removed.
pub proof fn lemma_path_decomposition(p: Seq<char>)
    requires
        has_segments(p, 5),
    ensures
        p == segment(p, 0) + seq!['/'] + segment(p, 1) + seq!['/'] + segment(p, 2) + seq!['/']
            + segment(p, 3) + seq!['/'] + parsed_relative_path(p),
{
    assert(sep_end(p, 0) == Some(0int));
    assert(sep_end(p, 4) is Some);
    assert(sep_end(p, 3) is Some);
    assert(sep_end(p, 2) is Some);
    assert(sep_end(p, 1) is Some);
    let e1 = sep_end(p, 1)->Some_0;
    let e2 = sep_end(p, 2)->Some_0;
    let e3 = sep_end(p, 3)->Some_0;
    let e4 = sep_end(p, 4)->Some_0;
    lemma_find_from_spec(p, 0, '/');
    assert(e1 == find_from_spec(p, 0, '/')->Some_0 + 1);
    lemma_find_from_spec(p, e1, '/');
    assert(e2 == find_from_spec(p, e1, '/')->Some_0 + 1);
    lemma_find_from_spec(p, e2, '/');
    assert(e3 == find_from_spec(p, e2, '/')->Some_0 + 1);
    lemma_find_from_spec(p, e3, '/');
    assert(e4 == find_from_spec(p, e3, '/')->Some_0 + 1);
    assert(0 < e1 <= e2 <= e3 <= e4 <= p.len());
    assert(p[e1 - 1] == '/' && p[e2 - 1] == '/' && p[e3 - 1] == '/' && p[e4 - 1] == '/');
    assert(p =~= p.subrange(0, e1 - 1) + seq!['/'] + p.subrange(e1, e2 - 1) + seq!['/']
        + p.subrange(e2, e3 - 1) + seq!['/'] + p.subrange(e3, e4 - 1) + seq!['/'] + p.subrange(
        e4,
        p.len() as int,
    ));
}

/// The raw title-id segment is a bracketed identity: `[`, a bracket-free
/// core, `]`.
pub open spec fn bracketed_id_segment(raw: Seq<char>) -> bool {
    raw.len() >= 2 && raw.first() == '[' && raw.last() == ']' && (forall|j: int|
        1 <= j < raw.len() - 1 ==> raw[j] != '[' && raw[j] != ']')
}

/// Re-inserting the brackets around the stripped title id and joining the
/// parsed parts with their separators yields the original path, whenever
/// the raw title-id segment was a bracketed identity with no internal
/// brackets.
pub proof fn lemma_parse_reconstructs_path(p: Seq<char>)
    requires
        has_segments(p, 5),
        bracketed_id_segment(segment(p, 2)),
    ensures
        segment(p, 0) + seq!['/'] + segment(p, 1) + seq!['/'] + (seq!['['] + parsed_title_id(p)
            + seq![']']) + seq!['/'] + segment(p, 3) + seq!['/'] + parsed_relative_path(p) == p,
{
    lemma_path_decomposition(p);
    let raw = segment(p, 2);
    let core = raw.subrange(1, raw.len() - 1);
    assert(raw =~= seq!['['] + core + seq![']']);
    lemma_strip_brackets_concat(seq!['['] + core, seq![']']);
    lemma_strip_brackets_concat(seq!['['], core);
    assert(strip_brackets_view(Seq::<char>::empty()) =~= Seq::<char>::empty());
    assert((seq!['[']).drop_last() =~= Seq::<char>::empty());
    assert(strip_brackets_view(seq!['[']) =~= Seq::<char>::empty());
    assert((seq![']']).drop_last() =~= Seq::<char>::empty());
    assert(strip_brackets_view(seq![']']) =~= Seq::<char>::empty());
    lemma_strip_brackets_id(core);
    assert(strip_brackets_view(raw) =~= core);
    assert(parsed_title_id(p) == core);
    assert(seq!['['] + parsed_title_id(p) + seq![']'] =~= raw);
    assert(segment(p, 0) + seq!['/'] + segment(p, 1) + seq!['/'] + (seq!['[']
        + parsed_title_id(p) + seq![']']) + seq!['/'] + segment(p, 3) + seq!['/']
        + parsed_relative_path(p) =~= segment(p, 0) + seq!['/'] + segment(p, 1) + seq!['/'] + raw
        + seq!['/'] + segment(p, 3) + seq!['/'] + parsed_relative_path(p));
}

/// Per-path metadata derived from one remote tree entry: the display name
/// of the title, its identity with brackets stripped, the mod's declared
/// compatible version, and the path under the title's install root at which
/// the file must land.
pub struct ParsedModPath {
    pub title_name: String,
    pub title_id: String,
    pub title_version: String,
    pub relative_path: String,
}

/// Removes every `[` and `]` from `s`.
pub fn strip_brackets(s: &str) -> (r: String)
    ensures
        r@ == strip_brackets_view(s@),
{
    let mut out = String::new();
    let len: usize = s.unicode_len();
    let mut i: usize = 0;
    proof {
        assert(s@.take(0) =~= Seq::<char>::empty());
    }
    while i < len
        invariant
            0 <= i <= len,
            len == s@.len(),
            out@ == strip_brackets_view(s@.take(i as int)),
        decreases len - i,
    {
        let c = s.get_char(i);
        proof {
            assert(s@.take(i + 1).drop_last() =~= s@.take(i as int));
            assert(s@.take(i + 1).last() == s@[i as int]);
        }
        if c != '[' && c != ']' {
            push_char(&mut out, c);
        }
        i = i + 1;
    }
    proof {
        assert(s@.take(len as int) =~= s@);
    }
    out
}

/// Splits `path` into the per-title metadata, as a split on `/` limited to
/// five resulting parts would: the fifth part keeps its embedded slashes.
/// A path with fewer than five segments must never reach this parser: the
/// caller pre-filters the listing by the recognized mod-type directories.
pub fn parse_mod_path(path: &str) -> (r: ParsedModPath)
    requires
        has_segments(path@, 5),
    ensures
        r.title_name@ == parsed_title_name(path@),
        r.title_id@ == parsed_title_id(path@),
        r.title_version@ == parsed_version(path@),
        r.relative_path@ == parsed_relative_path(path@),
{
    let len: usize = path.unicode_len();
    proof {
        assert(sep_end(path@, 0) == Some(0int));
        lemma_sep_end_bounds(path@, 0);
        lemma_sep_end_bounds(path@, 1);
        lemma_sep_end_bounds(path@, 2);
        lemma_sep_end_bounds(path@, 3);
        lemma_sep_end_bounds(path@, 4);
    }
    let s1 = match find_from(path, 0, '/') {
        Some(i) => i,
        None => {
            proof {
                assert(false);
            }
            0
        },
    };
    proof {
        assert(sep_end(path@, 1) == Some(s1 + 1));
        lemma_find_from_spec(path@, 0, '/');
    }
    let s2 = match find_from(path, s1 + 1, '/') {
        Some(i) => i,
        None => {
            proof {
                assert(false);
            }
            0
        },
    };
    proof {
        assert(sep_end(path@, 2) == Some(s2 + 1));
        lemma_find_from_spec(path@, s1 + 1, '/');
    }
    let s3 = match find_from(path, s2 + 1, '/') {
        Some(i) => i,
        None => {
            proof {
                assert(false);
            }
            0
        },
    };
    proof {
        assert(sep_end(path@, 3) == Some(s3 + 1));
        lemma_find_from_spec(path@, s2 + 1, '/');
    }
    let s4 = match find_from(path, s3 + 1, '/') {
        Some(i) => i,
        None => {
            proof {
                assert(false);
            }
            0
        },
    };
    proof {
        assert(sep_end(path@, 4) == Some(s4 + 1));
        lemma_find_from_spec(path@, s3 + 1, '/');
    }
    let title_name = path.substring_char(s1 + 1, s2).to_owned();
    let raw_id = path.substring_char(s2 + 1, s3);
    let title_id = strip_brackets(raw_id);
    let title_version = path.substring_char(s3 + 1, s4).to_owned();
    let relative_path = path.substring_char(s4 + 1, len).to_owned();
    ParsedModPath { title_name, title_id, title_version, relative_path }
}

} // verus!
