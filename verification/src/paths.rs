//! File-name handling: the parts of `std::path::Path` the engine relies on
//! (`file_name`, `file_stem`, `extension` on `/`-separated paths), and the
//! paths of contract files.

use crate::text::{chars_of, ends_with_chars, push_char, push_str, string_of};
use vstd::prelude::*;

verus! {

/// Splits at every `/`, keeping empty pieces; `cur` is the piece in progress.
pub open spec fn slash_pieces(s: Seq<char>, cur: Seq<char>) -> Seq<Seq<char>>
    decreases s.len(),
{
    if s.len() == 0 {
        seq![cur]
    } else if s[0] == '/' {
        seq![cur] + slash_pieces(s.drop_first(), seq![])
    } else {
        slash_pieces(s.drop_first(), cur.push(s[0]))
    }
}

/// The last piece of a path that names something: empty pieces and `.` are
/// skipped (as `Path::components` does); `..` or nothing left means no name.
pub open spec fn last_name(pieces: Seq<Seq<char>>) -> Option<Seq<char>>
    decreases pieces.len(),
{
    if pieces.len() == 0 {
        None
    } else {
        let p = pieces.last();
        if p.len() == 0 || p == seq!['.'] {
            last_name(pieces.drop_last())
        } else if p == seq!['.', '.'] {
            None
        } else {
            Some(p)
        }
    }
}

/// `Path::file_name` of a `/`-separated path.
pub open spec fn file_name_spec(path: Seq<char>) -> Option<Seq<char>> {
    last_name(slash_pieces(path, seq![]))
}

/// Index of the last `.` in a name, if any.
pub open spec fn last_dot(name: Seq<char>) -> Option<int>
    decreases name.len(),
{
    if name.len() == 0 {
        None
    } else if name.last() == '.' {
        Some(name.len() - 1)
    } else {
        last_dot(name.drop_last())
    }
}

/// `Path::file_stem`: the file name up to its last `.`; a name without a dot,
/// or whose only dot is its first character, is its own stem.
pub open spec fn file_stem_spec(path: Seq<char>) -> Option<Seq<char>> {
    match file_name_spec(path) {
        None => None,
        Some(n) => match last_dot(n) {
            Some(k) => if k == 0 {
                Some(n)
            } else {
                Some(n.take(k))
            },
            None => Some(n),
        },
    }
}

/// `Path::extension`: what follows the last `.` of the file name, unless that
/// dot is its first character.
pub open spec fn extension_spec(path: Seq<char>) -> Option<Seq<char>> {
    match file_name_spec(path) {
        None => None,
        Some(n) => match last_dot(n) {
            Some(k) => if k == 0 {
                None
            } else {
                Some(n.skip(k + 1))
            },
            None => None,
        },
    }
}

proof fn lemma_last_dot_bound(name: Seq<char>)
    ensures
        match last_dot(name) {
            Some(k) => 0 <= k < name.len() && name[k] == '.',
            None => true,
        },
    decreases name.len(),
{
    if name.len() > 0 && name.last() != '.' {
        lemma_last_dot_bound(name.drop_last());
    }
}

/// The dot that `last_dot` finds is the name's last one: no character after
/// it is a dot; and where it finds none, the name holds no dot at all.
pub proof fn last_dot_is_the_last_dot(name: Seq<char>)
    ensures
        match last_dot(name) {
            Some(k) => 0 <= k < name.len() && name[k] == '.' && forall|j: int|
                k < j < name.len() ==> name[j] != '.',
            None => forall|j: int| 0 <= j < name.len() ==> name[j] != '.',
        },
    decreases name.len(),
{
    if name.len() > 0 {
        lemma_last_dot_bound(name);
        if name.last() != '.' {
            last_dot_is_the_last_dot(name.drop_last());
            match last_dot(name.drop_last()) {
                Some(k) => {
                    assert forall|j: int| k < j < name.len() implies name[j] != '.' by {
                        if j < name.len() - 1 {
                            assert(name[j] == name.drop_last()[j]);
                        }
                    }
                },
                None => {
                    assert forall|j: int| 0 <= j < name.len() implies name[j] != '.' by {
                        if j < name.len() - 1 {
                            assert(name[j] == name.drop_last()[j]);
                        }
                    }
                },
            }
        }
    }
}

/// A file name with an extension is its stem, a dot and the extension, cut at
/// the name's last dot: the stem is not empty and the extension holds no dot.
/// A name without an extension is its own stem.
pub proof fn stem_and_extension_split_at_last_dot(path: Seq<char>)
    ensures
        match extension_spec(path) {
            Some(e) => file_name_spec(path) matches Some(n) && file_stem_spec(path) matches Some(
                s,
            ) && n == s + seq!['.'] + e && s.len() > 0 && forall|j: int|
                0 <= j < e.len() ==> e[j] != '.',
            None => file_stem_spec(path) == file_name_spec(path),
        },
{
    match file_name_spec(path) {
        Some(n) => {
            last_dot_is_the_last_dot(n);
            match last_dot(n) {
                Some(k) => {
                    if k != 0 {
                        let e = n.skip(k + 1);
                        assert(n =~= n.take(k) + seq!['.'] + e);
                        assert forall|j: int| 0 <= j < e.len() implies e[j] != '.' by {
                            assert(e[j] == n[k + 1 + j]);
                        }
                    }
                },
                None => {},
            }
        },
        None => {},
    }
}

fn find_last_dot(name: &[char]) -> (r: Option<usize>)
    ensures
        match r {
            Some(k) => last_dot(name@) == Some(k as int),
            None => last_dot(name@) is None,
        },
{
    let mut i: usize = name.len();
    assert(name@.take(i as int) =~= name@);
    while i > 0
        invariant
            i <= name@.len(),
            last_dot(name@) == last_dot(name@.take(i as int)),
        decreases i,
    {
        let ghost t = name@.take(i as int);
        assert(t.drop_last() =~= name@.take(i - 1));
        if name[i - 1] == '.' {
            return Some(i - 1);
        }
        i = i - 1;
    }
    None
}

/// The meaningful name at the end of a path, as characters.
fn file_name_chars(path: &[char]) -> (r: Option<Vec<char>>)
    ensures
        match r {
            Some(n) => file_name_spec(path@) == Some(n@),
            None => file_name_spec(path@) is None,
        },
{
    let mut end: usize = path.len();
    assert(path@.take(end as int) =~= path@);
    loop
        invariant
            end <= path@.len(),
            file_name_spec(path@) == last_name(slash_pieces(path@.take(end as int), seq![])),
        decreases end,
    {
        let mut start: usize = end;
        while start > 0 && path[start - 1] != '/'
            invariant
                start <= end,
                end <= path@.len(),
                forall|k: int| start <= k < end ==> path@[k] != '/',
            decreases start,
        {
            start = start - 1;
        }
        let ghost pre = path@.take(end as int);
        proof {
            lemma_last_piece(pre, start as int);
        }
        let piece = string_of_range(path, start, end);
        assert(piece@ == pre.subrange(start as int, pre.len() as int));
        let is_empty = start == end;
        let is_dot = end - start == 1 && path[start] == '.';
        let is_dotdot = end - start == 2 && path[start] == '.' && path[start + 1] == '.';
        assert(is_empty == (piece@.len() == 0));
        assert(is_dot == (piece@ == seq!['.'])) by {
            if piece@ == seq!['.'] {
                assert(piece@[0] == path@[start as int]);
            }
            if is_dot {
                assert(piece@ =~= seq!['.']);
            }
        }
        assert(is_dotdot == (piece@ == seq!['.', '.'])) by {
            if piece@ == seq!['.', '.'] {
                assert(piece@[0] == path@[start as int]);
                assert(piece@[1] == path@[start + 1]);
            }
            if is_dotdot {
                assert(piece@ =~= seq!['.', '.']);
            }
        }
        if is_empty || is_dot {
            if start == 0 {
                assert(slash_pieces(pre, seq![]).drop_last() =~= seq![]);
                assert(last_name(seq![]) is None);
                assert(last_name(slash_pieces(pre, seq![])) == last_name(slash_pieces(pre, seq![]).drop_last()));
                return None;
            }
            assert(pre.take(start - 1) =~= path@.take(start - 1));
            end = start - 1;
        } else if is_dotdot {
            return None;
        } else {
            return Some(piece);
        }
    }
}

fn string_of_range(path: &[char], start: usize, end: usize) -> (r: Vec<char>)
    requires
        start <= end <= path@.len(),
    ensures
        r@ == path@.subrange(start as int, end as int),
{
    let mut r: Vec<char> = Vec::new();
    let mut i = start;
    while i < end
        invariant
            start <= i <= end,
            end <= path@.len(),
            r@ == path@.subrange(start as int, i as int),
        decreases end - i,
    {
        r.push(path[i]);
        i = i + 1;
        assert(r@ =~= path@.subrange(start as int, i as int));
    }
    r
}

/// Splitting `s + [c]` at slashes, with `cur` in progress.
proof fn lemma_slash_pieces_snoc(s: Seq<char>, c: char, cur: Seq<char>)
    ensures
        slash_pieces(s.push(c), cur) == if c == '/' {
            slash_pieces(s, cur).push(seq![])
        } else {
            slash_pieces(s, cur).drop_last().push(slash_pieces(s, cur).last().push(c))
        },
        slash_pieces(s, cur).len() > 0,
    decreases s.len(),
{
    if s.len() == 0 {
        assert(s.push(c) =~= seq![c]);
        assert(seq![c].drop_first() =~= seq![]);
        assert(slash_pieces(s, cur) =~= seq![cur]);
        if c == '/' {
            assert(slash_pieces(seq![c], cur) =~= seq![cur] + slash_pieces(seq![], seq![]));
            assert(slash_pieces(seq![c], cur) =~= seq![cur].push(seq![]));
        } else {
            assert(slash_pieces(seq![c], cur) == slash_pieces(seq![], cur.push(c)));
            assert(slash_pieces(seq![c], cur) =~= seq![cur.push(c)]);
            assert(seq![cur].drop_last().push(cur.push(c)) =~= seq![cur.push(c)]);
        }
    } else {
        assert(s.push(c)[0] == s[0]);
        assert(s.push(c).drop_first() =~= s.drop_first().push(c));
        if s[0] == '/' {
            lemma_slash_pieces_snoc(s.drop_first(), c, seq![]);
            let tail = slash_pieces(s.drop_first(), seq![]);
            if c == '/' {
                assert(seq![cur] + tail.push(seq![]) =~= (seq![cur] + tail).push(seq![]));
            } else {
                assert(seq![cur] + tail.drop_last().push(tail.last().push(c)) =~= (seq![cur]
                    + tail).drop_last().push((seq![cur] + tail).last().push(c)));
            }
        } else {
            lemma_slash_pieces_snoc(s.drop_first(), c, cur.push(s[0]));
        }
    }
}

/// The pieces of `pre` end with the piece that starts after the last slash
/// before the end, preceded by the pieces of what comes before that slash.
proof fn lemma_last_piece(pre: Seq<char>, start: int)
    requires
        0 <= start <= pre.len(),
        forall|k: int| start <= k < pre.len() ==> pre[k] != '/',
        start > 0 ==> pre[start - 1] == '/',
    ensures
        slash_pieces(pre, seq![]).last() == pre.subrange(start, pre.len() as int),
        slash_pieces(pre, seq![]).len() > 0,
        start == 0 ==> slash_pieces(pre, seq![]).len() == 1,
        start > 0 ==> slash_pieces(pre, seq![]).drop_last() == slash_pieces(
            pre.take(start - 1),
            seq![],
        ),
    decreases pre.len() - start,
{
    if pre.len() == start {
        if start == 0 {
            assert(slash_pieces(pre, seq![]) =~= seq![seq![]]);
        } else {
            let q = pre.take(start - 1);
            assert(pre =~= q.push('/'));
            lemma_slash_pieces_snoc(q, '/', seq![]);
        }
        assert(pre.subrange(start, pre.len() as int) =~= seq![]);
    } else {
        let q = pre.drop_last();
        let c = pre.last();
        assert(pre =~= q.push(c));
        lemma_last_piece(q, start);
        lemma_slash_pieces_snoc(q, c, seq![]);
        assert(q.subrange(start, q.len() as int).push(c) =~= pre.subrange(start, pre.len() as int));
        if start > 0 {
            assert(q.take(start - 1) =~= pre.take(start - 1));
        }
    }
}

} // verus!

verus! {

/// Text of an optional string.
pub open spec fn opt_string(o: Option<String>) -> Option<Seq<char>> {
    match o {
        Some(s) => Some(s@),
        None => None,
    }
}

/// `Path::new(path).file_name()`.
pub fn file_name(path: &str) -> (r: Option<String>)
    ensures
        opt_string(r) == file_name_spec(path@),
{
    let p = chars_of(path);
    match file_name_chars(&p) {
        Some(n) => Some(string_of(&n)),
        None => None,
    }
}

/// `Path::new(path).file_stem()`.
pub fn file_stem(path: &str) -> (r: Option<String>)
    ensures
        opt_string(r) == file_stem_spec(path@),
{
    let p = chars_of(path);
    match file_name_chars(&p) {
        None => None,
        Some(n) => {
            proof {
                lemma_last_dot_bound(n@);
            }
            match find_last_dot(&n) {
                Some(k) => {
                    if k == 0 {
                        Some(string_of(&n))
                    } else {
                        let stem = string_of_range(&n, 0, k);
                        assert(stem@ =~= n@.take(k as int));
                        Some(string_of(&stem))
                    }
                },
                None => Some(string_of(&n)),
            }
        },
    }
}

/// `Path::new(path).extension()`.
pub fn extension(path: &str) -> (r: Option<String>)
    ensures
        opt_string(r) == extension_spec(path@),
{
    let p = chars_of(path);
    match file_name_chars(&p) {
        None => None,
        Some(n) => {
            proof {
                lemma_last_dot_bound(n@);
            }
            match find_last_dot(&n) {
                Some(k) => {
                    if k == 0 {
                        None
                    } else {
                        assert(k < n@.len());
                        let len = n.len();
                        let ext = string_of_range(&n, k + 1, len);
                        assert(ext@ =~= n@.skip(k + 1));
                        Some(string_of(&ext))
                    }
                },
                None => None,
            }
        },
    }
}

/// `contracts/<name>.toml`.
pub open spec fn named_contract_path(name: Seq<char>) -> Seq<char> {
    seq!['c', 'o', 'n', 't', 'r', 'a', 'c', 't', 's', '/'] + name + seq!['.', 't', 'o', 'm', 'l']
}

/// The text ends with `.toml`.
pub open spec fn ends_with_toml(name: Seq<char>) -> bool {
    name.len() >= 5 && name.skip(name.len() - 5) == seq!['.', 't', 'o', 'm', 'l']
}

/// Where a contract is read from: an argument ending in `.toml` is the
/// contract file's own path (`contracts/example.toml`); any other argument is
/// a contract name, whose file is `contracts/<name>.toml`.
pub open spec fn contract_path_spec(name: Seq<char>) -> Seq<char> {
    if ends_with_toml(name) {
        name
    } else {
        named_contract_path(name)
    }
}

/// Path of the file of the contract called `name`: `contracts/<name>.toml`,
/// whatever the name ends with.
pub fn contract_path_for_name(name: &str) -> (r: String)
    ensures
        r@ == named_contract_path(name@),
{
    let mut s = String::new();
    push_str(&mut s, "contracts/");
    push_str(&mut s, name);
    push_str(&mut s, ".toml");
    proof {
        reveal_strlit("contracts/");
        reveal_strlit(".toml");
    }
    assert(s@ =~= named_contract_path(name@));
    s
}

/// Path of a contract's file: the argument itself when it is a path ending
/// in `.toml`, else `contracts/<name>.toml`.
pub fn contract_path(name: &str) -> (r: String)
    ensures
        r@ == contract_path_spec(name@),
{
    let n = chars_of(name);
    let suffix = chars_of(".toml");
    proof {
        reveal_strlit(".toml");
    }
    assert(suffix@ =~= seq!['.', 't', 'o', 'm', 'l']);
    if ends_with_chars(&n, &suffix) {
        name.to_owned()
    } else {
        contract_path_for_name(name)
    }
}

/// The contract file for a data file: the contract named by the data file's
/// stem, under `contracts/`. A path without a file name has no contract.
pub fn contract_path_for_file(path: &str) -> (r: Option<String>)
    ensures
        match file_stem_spec(path@) {
            Some(stem) => r matches Some(p) && p@ == named_contract_path(stem),
            None => r is None,
        },
{
    match file_stem(path) {
        Some(stem) => Some(contract_path_for_name(stem.as_str())),
        None => None,
    }
}

} // verus!
