//! Sealing finished audit logs into the ledger, and the laws that tie the
//! ledger's writes to its reads.

use crate::crypto::{compute_sha256, hex_digit, hex_lower, sha256_spec};
use crate::ledger::{append_to_ledger, is_token, is_utc_rfc3339, ledger_contains, ledger_line_spec, text_of};
use crate::text::{
    chars_of, contains_chars, contains_spec, ends_with_chars, is_white_space, line_pieces, lines_spec,
    occurs_at, split_whitespace_spec, starts_with_chars, strip_cr, whitespace_pieces,
};
use crate::verify::{
    check_line, first_line_containing, hash_text, lookup_log, verify_all_spec, verify_date_spec, FileCheck,
    FileStatus,
};
use vstd::prelude::*;
use vstd::utf8::*;

verus! {

/// `audit-*.jsonl`: the names of audit log files.
pub open spec fn is_audit_log_name(f: Seq<char>) -> bool {
    let prefix = seq!['a', 'u', 'd', 'i', 't', '-'];
    let suffix = seq!['.', 'j', 's', 'o', 'n', 'l'];
    &&& prefix.len() <= f.len() && f.take(prefix.len() as int) == prefix
    &&& suffix.len() <= f.len() && f.skip(f.len() - suffix.len()) == suffix
}

/// A log file is sealed when it is an audit log, is not today's log (its name
/// does not contain `today`), and the ledger does not name it yet.
pub open spec fn should_seal_spec(ledger: Seq<u8>, f: Seq<char>, today: Seq<char>) -> bool {
    is_audit_log_name(f) && !contains_spec(f, today) && !contains_spec(text_of(ledger), f)
}

/// Whether the log file `fname` is to be sealed now.
pub fn should_seal(ledger_plaintext: &[u8], fname: &str, today: &str) -> (b: bool)
    ensures
        b == should_seal_spec(ledger_plaintext@, fname@, today@),
{
    let f = chars_of(fname);
    let prefix = chars_of("audit-");
    let suffix = chars_of(".jsonl");
    proof {
        reveal_strlit("audit-");
        reveal_strlit(".jsonl");
    }
    assert(prefix@ == seq!['a', 'u', 'd', 'i', 't', '-']);
    assert(suffix@ == seq!['.', 'j', 's', 'o', 'n', 'l']);
    if !starts_with_chars(&f, &prefix) || !ends_with_chars(&f, &suffix) {
        return false;
    }
    let t = chars_of(today);
    if contains_chars(&f, &t) {
        return false;
    }
    !ledger_contains(ledger_plaintext, fname)
}

/// `ledger1` is a possible outcome of sealing `files` (name and contents) in
/// order, starting from `ledger0`: each file to seal adds its line, stamped
/// with a UTC time written in RFC 3339 form, and the hash of its contents (a
/// 32-byte digest).
pub open spec fn seals(
    ledger0: Seq<u8>,
    files: Seq<(Seq<char>, Seq<u8>)>,
    today: Seq<char>,
    ledger1: Seq<u8>,
) -> bool
    decreases files.len(),
{
    if files.len() == 0 {
        ledger1 == ledger0
    } else {
        let f = files[0].0;
        let c = files[0].1;
        if should_seal_spec(ledger0, f, today) {
            sha256_spec(c).len() == 32 && exists|ts: Seq<char>|
                is_utc_rfc3339(ts) && seals(
                    ledger0 + encode_utf8(#[trigger] ledger_line_spec(ts, f, hash_text(c))),
                    files.drop_first(),
                    today,
                    ledger1,
                )
        } else {
            seals(ledger0, files.drop_first(), today, ledger1)
        }
    }
}

/// Names and contents of log files, as plain values.
pub open spec fn files_of(files: Seq<(String, Vec<u8>)>) -> Seq<(Seq<char>, Seq<u8>)> {
    files.map_values(|p: (String, Vec<u8>)| (p.0@, p.1@))
}

/// Seals every audit log among `files` (the regular files of the logs
/// directory, by name, with their contents) that is not today's and not yet
/// in the ledger, appending one ledger line per file.
pub fn seal_unsealed_logs(ledger: &mut Vec<u8>, files: &Vec<(String, Vec<u8>)>, today: &str)
    ensures
        seals(old(ledger)@, files_of(files@), today@, final(ledger)@),
{
    let ghost start = ledger@;
    let ghost all = files_of(files@);
    let mut i: usize = 0;
    assert(all.skip(0) =~= all);
    while i < files.len()
        invariant
            i <= files@.len(),
            all == files_of(files@),
            forall|l: Seq<u8>| #[trigger] seals(ledger@, all.skip(i as int), today@, l) ==> seals(start, all, today@, l),
        decreases files@.len() - i,
    {
        let ghost cur = ledger@;
        let ghost rest = all.skip(i as int);
        assert(rest.drop_first() =~= all.skip(i + 1));
        assert(rest[0] == (files@[i as int].0@, files@[i as int].1@));
        let name = files[i].0.as_str();
        if should_seal(ledger, name, today) {
            let hash = compute_sha256(&files[i].1);
            append_to_ledger(ledger, name, hash.as_str());
            let ghost ts = choose|ts: Seq<char>| is_utc_rfc3339(ts) && ledger@ == cur + encode_utf8(
                #[trigger] ledger_line_spec(ts, name@, hash@),
            );
            assert(hash@ == hash_text(rest[0].1));
            assert(name@ == rest[0].0);
            assert forall|l: Seq<u8>| #[trigger] seals(ledger@, all.skip(i + 1), today@, l) implies seals(start, all, today@, l) by {
                assert(ledger@ == cur + encode_utf8(ledger_line_spec(ts, rest[0].0, hash_text(rest[0].1))));
                assert(is_utc_rfc3339(ts) && seals(
                    cur + encode_utf8(ledger_line_spec(ts, rest[0].0, hash_text(rest[0].1))),
                    rest.drop_first(),
                    today@,
                    l,
                ));
                assert(seals(cur, rest, today@, l));
            }
        } else {
            assert forall|l: Seq<u8>| #[trigger] seals(ledger@, all.skip(i + 1), today@, l) implies seals(start, all, today@, l) by {
                assert(seals(cur, rest, today@, l));
            }
        }
        i = i + 1;
    }
    assert(all.skip(i as int) =~= seq![]);
    assert(seals(ledger@, all.skip(i as int), today@, ledger@));
}

} // verus!

verus! {

/// UTF-8 encoding distributes over concatenation.
pub proof fn lemma_encode_utf8_concat(a: Seq<char>, b: Seq<char>)
    ensures
        encode_utf8(a + b) == encode_utf8(a) + encode_utf8(b),
    decreases a.len(),
{
    if a.len() == 0 {
        assert(a + b =~= b);
        assert(encode_utf8(a) =~= seq![]);
        assert(encode_utf8(a) + encode_utf8(b) =~= encode_utf8(b));
    } else {
        assert((a + b).drop_first() =~= a.drop_first() + b);
        assert((a + b)[0] == a[0]);
        lemma_encode_utf8_concat(a.drop_first(), b);
        assert(encode_utf8(a + b) =~= encode_utf8(a) + encode_utf8(b));
    }
}

/// Appending encoded text to valid UTF-8 keeps it valid and appends the text
/// to its decoding.
pub proof fn lemma_append_encoded(old: Seq<u8>, s: Seq<char>)
    requires
        valid_utf8(old),
    ensures
        valid_utf8(old + encode_utf8(s)),
        decode_utf8(old + encode_utf8(s)) == decode_utf8(old) + s,
{
    let t = decode_utf8(old);
    decode_utf8_encode_utf8(old);
    lemma_encode_utf8_concat(t, s);
    assert(old + encode_utf8(s) == encode_utf8(t + s));
    encode_utf8_valid_utf8(t + s);
    encode_utf8_decode_utf8(t + s);
}

/// A text that contains a needle still contains it after more text follows.
pub proof fn lemma_contains_extend(x: Seq<char>, y: Seq<char>, n: Seq<char>)
    requires
        contains_spec(x, n),
    ensures
        contains_spec(x + y, n),
{
    let i = choose|i: int| occurs_at(x, n, i);
    assert((x + y).subrange(i, i + n.len()) =~= x.subrange(i, i + n.len()));
    assert(occurs_at(x + y, n, i));
}

/// A ledger line contains the filename it records.
pub proof fn lemma_line_contains_filename(x: Seq<char>, ts: Seq<char>, f: Seq<char>, h: Seq<char>)
    ensures
        contains_spec(x + ledger_line_spec(ts, f, h), f),
{
    let all = x + ledger_line_spec(ts, f, h);
    let i: int = (x.len() + ts.len() + 1) as int;
    assert(all.subrange(i, i + f.len()) =~= f);
    assert(occurs_at(all, f, i));
}

/// Law: once a log is sealed into a ledger that is valid UTF-8, the ledger
/// names it, so `ledger_contains` reports it (and the ledger stays valid
/// UTF-8).
pub proof fn sealed_log_is_in_ledger(old: Seq<u8>, ts: Seq<char>, f: Seq<char>, h: Seq<char>)
    requires
        valid_utf8(old),
    ensures
        valid_utf8(old + encode_utf8(ledger_line_spec(ts, f, h))),
        contains_spec(decode_utf8(old + encode_utf8(ledger_line_spec(ts, f, h))), f),
{
    lemma_append_encoded(old, ledger_line_spec(ts, f, h));
    lemma_line_contains_filename(decode_utf8(old), ts, f, h);
}

/// Law: sealing never drops a name from the ledger: whatever a valid-UTF-8
/// ledger names before sealing, it still names after.
pub proof fn sealing_keeps_names(
    l0: Seq<u8>,
    files: Seq<(Seq<char>, Seq<u8>)>,
    today: Seq<char>,
    l1: Seq<u8>,
    n: Seq<char>,
)
    requires
        valid_utf8(l0),
        seals(l0, files, today, l1),
        contains_spec(decode_utf8(l0), n),
    ensures
        valid_utf8(l1),
        contains_spec(decode_utf8(l1), n),
    decreases files.len(),
{
    if files.len() > 0 {
        let f = files[0].0;
        let c = files[0].1;
        if should_seal_spec(l0, f, today) {
            let ts = choose|ts: Seq<char>|
                is_utc_rfc3339(ts) && seals(
                    l0 + encode_utf8(#[trigger] ledger_line_spec(ts, f, hash_text(c))),
                    files.drop_first(),
                    today,
                    l1,
                );
            let line = ledger_line_spec(ts, f, hash_text(c));
            lemma_append_encoded(l0, line);
            lemma_contains_extend(decode_utf8(l0), line, n);
            sealing_keeps_names(l0 + encode_utf8(line), files.drop_first(), today, l1, n);
        } else {
            sealing_keeps_names(l0, files.drop_first(), today, l1, n);
        }
    }
}

/// Law: after sealing, a valid-UTF-8 ledger names every audit log of the
/// batch that is not today's log.
pub proof fn sealing_names_every_finished_log(
    l0: Seq<u8>,
    files: Seq<(Seq<char>, Seq<u8>)>,
    today: Seq<char>,
    l1: Seq<u8>,
)
    requires
        valid_utf8(l0),
        seals(l0, files, today, l1),
    ensures
        valid_utf8(l1),
        forall|i: int|
            0 <= i < files.len() && is_audit_log_name(#[trigger] files[i].0) && !contains_spec(
                files[i].0,
                today,
            ) ==> contains_spec(decode_utf8(l1), files[i].0),
    decreases files.len(),
{
    if files.len() == 0 {
        return;
    }
    let f = files[0].0;
    let c = files[0].1;
    let rest = files.drop_first();
    if should_seal_spec(l0, f, today) {
        let ts = choose|ts: Seq<char>|
            is_utc_rfc3339(ts) && seals(
                l0 + encode_utf8(#[trigger] ledger_line_spec(ts, f, hash_text(c))),
                rest,
                today,
                l1,
            );
        let l0b = l0 + encode_utf8(ledger_line_spec(ts, f, hash_text(c)));
        sealed_log_is_in_ledger(l0, ts, f, hash_text(c));
        sealing_names_every_finished_log(l0b, rest, today, l1);
        sealing_keeps_names(l0b, rest, today, l1, f);
        assert forall|i: int|
            0 <= i < files.len() && is_audit_log_name(#[trigger] files[i].0) && !contains_spec(
                files[i].0,
                today,
            ) implies contains_spec(decode_utf8(l1), files[i].0) by {
            if i > 0 {
                assert(files[i] == rest[i - 1]);
            }
        }
    } else {
        sealing_names_every_finished_log(l0, rest, today, l1);
        if is_audit_log_name(f) && !contains_spec(f, today) {
            assert(contains_spec(text_of(l0), f));
            sealing_keeps_names(l0, rest, today, l1, f);
        }
        assert forall|i: int|
            0 <= i < files.len() && is_audit_log_name(#[trigger] files[i].0) && !contains_spec(
                files[i].0,
                today,
            ) implies contains_spec(decode_utf8(l1), files[i].0) by {
            if i > 0 {
                assert(files[i] == rest[i - 1]);
            }
        }
    }
}

} // verus!

verus! {

proof fn lemma_seals_nothing(l: Seq<u8>, files: Seq<(Seq<char>, Seq<u8>)>, today: Seq<char>, l2: Seq<u8>)
    requires
        forall|i: int| 0 <= i < files.len() ==> !should_seal_spec(l, #[trigger] files[i].0, today),
        seals(l, files, today, l2),
    ensures
        l2 == l,
    decreases files.len(),
{
    if files.len() > 0 {
        assert(!should_seal_spec(l, files[0].0, today));
        let rest = files.drop_first();
        assert forall|i: int| 0 <= i < rest.len() implies !should_seal_spec(l, #[trigger] rest[i].0, today) by {
            assert(rest[i] == files[i + 1]);
        }
        lemma_seals_nothing(l, rest, today, l2);
    }
}

/// Law: sealing is idempotent. Sealing the same batch of logs again, on the
/// same day, adds nothing to a ledger that is valid UTF-8.
pub proof fn sealing_twice_adds_nothing(
    l0: Seq<u8>,
    files: Seq<(Seq<char>, Seq<u8>)>,
    today: Seq<char>,
    l1: Seq<u8>,
    l2: Seq<u8>,
)
    requires
        valid_utf8(l0),
        seals(l0, files, today, l1),
        seals(l1, files, today, l2),
    ensures
        l2 == l1,
{
    sealing_names_every_finished_log(l0, files, today, l1);
    assert forall|i: int| 0 <= i < files.len() implies !should_seal_spec(l1, #[trigger] files[i].0, today) by {
        if is_audit_log_name(files[i].0) && !contains_spec(files[i].0, today) {
            assert(contains_spec(decode_utf8(l1), files[i].0));
        }
    }
    lemma_seals_nothing(l1, files, today, l2);
}

proof fn lemma_line_pieces_concat(a: Seq<char>, b: Seq<char>, cur: Seq<char>)
    requires
        a.len() > 0,
        a.last() == '\n',
    ensures
        line_pieces(a + b, cur) == line_pieces(a, cur) + line_pieces(b, seq![]),
    decreases a.len(),
{
    assert((a + b)[0] == a[0]);
    assert((a + b).drop_first() =~= a.drop_first() + b);
    if a.len() == 1 {
        assert(a.drop_first() + b =~= b);
        assert(line_pieces(a.drop_first(), seq![]) =~= seq![]);
        assert(line_pieces(a, cur) + line_pieces(b, seq![]) =~= seq![strip_cr(cur)] + line_pieces(b, seq![]));
    } else {
        assert(a.drop_first().last() == '\n');
        if a[0] == '\n' {
            lemma_line_pieces_concat(a.drop_first(), b, seq![]);
            assert(line_pieces(a + b, cur) =~= line_pieces(a, cur) + line_pieces(b, seq![]));
        } else {
            lemma_line_pieces_concat(a.drop_first(), b, cur.push(a[0]));
        }
    }
}

proof fn lemma_line_pieces_last(x: Seq<char>, cur: Seq<char>)
    requires
        forall|i: int| 0 <= i < x.len() ==> x[i] != '\n',
    ensures
        line_pieces(x + seq!['\n'], cur) == seq![strip_cr(cur + x)],
    decreases x.len(),
{
    let all = x + seq!['\n'];
    if x.len() == 0 {
        assert(all =~= seq!['\n']);
        assert(all.drop_first() =~= seq![]);
        assert(cur + x =~= cur);
        assert(line_pieces(all.drop_first(), seq![]) =~= seq![]);
        assert(line_pieces(all, cur) =~= seq![strip_cr(cur)]);
    } else {
        assert(all[0] == x[0]);
        assert(all.drop_first() =~= x.drop_first() + seq!['\n']);
        lemma_line_pieces_last(x.drop_first(), cur.push(x[0]));
        assert(cur.push(x[0]) + x.drop_first() =~= cur + x);
    }
}

proof fn lemma_pieces_token(x: Seq<char>, rest: Seq<char>, cur: Seq<char>)
    requires
        forall|i: int| 0 <= i < x.len() ==> !is_white_space(#[trigger] x[i]),
    ensures
        whitespace_pieces(x + rest, cur) == whitespace_pieces(rest, cur + x),
    decreases x.len(),
{
    if x.len() == 0 {
        assert(x + rest =~= rest);
        assert(cur + x =~= cur);
    } else {
        assert((x + rest)[0] == x[0]);
        assert((x + rest).drop_first() =~= x.drop_first() + rest);
        lemma_pieces_token(x.drop_first(), rest, cur.push(x[0]));
        assert(cur.push(x[0]) + x.drop_first() =~= cur + x);
    }
}

proof fn lemma_pieces_space(rest: Seq<char>, cur: Seq<char>)
    requires
        cur.len() > 0,
    ensures
        whitespace_pieces(seq![' '] + rest, cur) == seq![cur] + whitespace_pieces(rest, seq![]),
{
    assert((seq![' '] + rest)[0] == ' ');
    assert((seq![' '] + rest).drop_first() =~= rest);
}

/// The fields of a ledger line (without its newline).
pub open spec fn entry_text(ts: Seq<char>, f: Seq<char>, h: Seq<char>) -> Seq<char> {
    ts + seq![' '] + f + seq![' '] + h
}

proof fn lemma_entry_fields(ts: Seq<char>, f: Seq<char>, h: Seq<char>)
    requires
        is_token(ts),
        is_token(f),
        is_token(h),
    ensures
        split_whitespace_spec(entry_text(ts, f, h)) == seq![ts, f, h],
{
    let e = entry_text(ts, f, h);
    assert(e =~= ts + (seq![' '] + (f + (seq![' '] + h))));
    lemma_pieces_token(ts, seq![' '] + (f + (seq![' '] + h)), seq![]);
    assert(seq![] + ts =~= ts);
    lemma_pieces_space(f + (seq![' '] + h), ts);
    lemma_pieces_token(f, seq![' '] + h, seq![]);
    assert(seq![] + f =~= f);
    lemma_pieces_space(h, f);
    assert(h =~= h + seq![]);
    lemma_pieces_token(h, seq![], seq![]);
    assert(seq![] + h =~= h);
    assert(whitespace_pieces(seq![], h) =~= seq![h]);
    assert(split_whitespace_spec(e) =~= seq![ts, f, h]);
}

/// Law: a line the ledger seals reads back. Appended to a valid-UTF-8 ledger
/// whose text is empty or ends with a newline (as every ledger this library
/// writes does), the line becomes the ledger's last line; verification reads
/// the filename and the stored hash from it, and a log sealed with the hash of
/// its contents verifies as long as those contents are unchanged.
pub proof fn sealed_line_reads_back(
    old: Seq<u8>,
    ts: Seq<char>,
    f: Seq<char>,
    h: Seq<char>,
    store: Seq<(Seq<char>, Seq<u8>)>,
)
    requires
        valid_utf8(old),
        decode_utf8(old).len() == 0 || decode_utf8(old).last() == '\n',
        is_token(ts),
        is_token(f),
        is_token(h),
    ensures
        lines_spec(text_of(old + encode_utf8(ledger_line_spec(ts, f, h)))) == lines_spec(
            text_of(old),
        ).push(entry_text(ts, f, h)),
        check_line(entry_text(ts, f, h), store).0 == f,
        check_line(entry_text(ts, f, h), store).2 == Some(h),
        (match lookup_log(store, f) {
            Some(c) => h == hash_text(c),
            None => false,
        }) ==> check_line(entry_text(ts, f, h), store).1 == FileStatus::Verified,
{
    let t = decode_utf8(old);
    let line = ledger_line_spec(ts, f, h);
    let e = entry_text(ts, f, h);
    lemma_append_encoded(old, line);
    assert(line =~= e + seq!['\n']);
    assert forall|i: int| 0 <= i < e.len() implies e[i] != '\n' by {
        if i < ts.len() {
            assert(e[i] == ts[i]);
            assert(!is_white_space(ts[i]));
        } else if i == ts.len() {
        } else if i < ts.len() + 1 + f.len() {
            assert(e[i] == f[i - ts.len() - 1]);
            assert(!is_white_space(f[i - ts.len() - 1]));
        } else if i == ts.len() + 1 + f.len() {
        } else {
            assert(e[i] == h[i - ts.len() - 2 - f.len()]);
            assert(!is_white_space(h[i - ts.len() - 2 - f.len()]));
        }
    }
    lemma_line_pieces_last(e, seq![]);
    assert(seq![] + e =~= e);
    assert(e.last() == h.last());
    assert(!is_white_space(h[h.len() - 1]));
    assert(strip_cr(e) == e);
    if t.len() == 0 {
        assert(t + line =~= line);
        assert(lines_spec(t) =~= seq![]);
        assert(lines_spec(t).push(e) =~= seq![e]);
    } else {
        lemma_line_pieces_concat(t, line, seq![]);
        assert(lines_spec(t + line) =~= lines_spec(t).push(e));
    }
    lemma_entry_fields(ts, f, h);
}

proof fn lemma_hex_lower_token(x: Seq<u8>)
    requires
        x.len() > 0,
    ensures
        is_token(hex_lower(x)),
    decreases x.len(),
{
    let b = x.last();
    assert(!is_white_space(hex_digit((b / 16) as nat)));
    assert(!is_white_space(hex_digit((b % 16) as nat)));
    if x.len() > 1 {
        lemma_hex_lower_token(x.drop_last());
    }
    let h = hex_lower(x);
    let h0 = hex_lower(x.drop_last());
    assert forall|i: int| 0 <= i < h.len() implies !is_white_space(#[trigger] h[i]) by {
        if i < h0.len() {
            assert(h[i] == h0[i]);
        }
    }
}

proof fn lemma_lookup_distinct(store: Seq<(Seq<char>, Seq<u8>)>, i: int)
    requires
        0 <= i < store.len(),
        forall|a: int, b: int| 0 <= a < b < store.len() ==> store[a].0 != store[b].0,
    ensures
        lookup_log(store, store[i].0) == Some(store[i].1),
    decreases store.len(),
{
    if i > 0 {
        assert(store[0].0 != store[i].0);
        let rest = store.drop_first();
        assert(rest[i - 1] == store[i]);
        lemma_lookup_distinct(rest, i - 1);
    }
}

/// The text is empty or its last character ends a line.
pub open spec fn ends_with_newline(t: Seq<char>) -> bool {
    t.len() == 0 || t.last() == '\n'
}

proof fn lemma_sealed_lines_verify(
    l0: Seq<u8>,
    files: Seq<(Seq<char>, Seq<u8>)>,
    today: Seq<char>,
    l1: Seq<u8>,
    store: Seq<(Seq<char>, Seq<u8>)>,
)
    requires
        valid_utf8(l0),
        ends_with_newline(decode_utf8(l0)),
        seals(l0, files, today, l1),
        forall|i: int|
            0 <= i < files.len() ==> is_token(#[trigger] files[i].0) && lookup_log(store, files[i].0)
                == Some(files[i].1),
    ensures
        valid_utf8(l1),
        ends_with_newline(decode_utf8(l1)),
        lines_spec(text_of(l0)).len() <= lines_spec(text_of(l1)).len(),
        lines_spec(text_of(l1)).take(lines_spec(text_of(l0)).len() as int) == lines_spec(text_of(l0)),
        forall|k: int|
            lines_spec(text_of(l0)).len() <= k < lines_spec(text_of(l1)).len() ==> (#[trigger] check_line(
                lines_spec(text_of(l1))[k],
                store,
            )).1 == FileStatus::Verified,
    decreases files.len(),
{
    let n0 = lines_spec(text_of(l0)).len() as int;
    if files.len() == 0 {
        assert(lines_spec(text_of(l0)).take(n0) =~= lines_spec(text_of(l0)));
        return;
    }
    let f = files[0].0;
    let c = files[0].1;
    let rest = files.drop_first();
    assert forall|i: int| 0 <= i < rest.len() implies is_token(#[trigger] rest[i].0) && lookup_log(
        store,
        rest[i].0,
    ) == Some(rest[i].1) by {
        assert(rest[i] == files[i + 1]);
    }
    assert(is_token(files[0].0));
    if should_seal_spec(l0, f, today) {
        let h = hash_text(c);
        let ts = choose|ts: Seq<char>|
            is_utc_rfc3339(ts) && seals(l0 + encode_utf8(#[trigger] ledger_line_spec(ts, f, h)), rest, today, l1);
        let line = ledger_line_spec(ts, f, h);
        let mid = l0 + encode_utf8(line);
        lemma_hex_lower_token(sha256_spec(c));
        lemma_append_encoded(l0, line);
        assert(line.last() == '\n');
        assert((decode_utf8(l0) + line).last() == '\n');
        sealed_line_reads_back(l0, ts, f, h, store);
        lemma_sealed_lines_verify(mid, rest, today, l1, store);
        let lm = lines_spec(text_of(mid));
        let l1s = lines_spec(text_of(l1));
        assert(lm == lines_spec(text_of(l0)).push(entry_text(ts, f, h)));
        assert(l1s.take(lm.len() as int) == lm);
        assert(l1s.take(n0) =~= lm.take(n0));
        assert(lm.take(n0) =~= lines_spec(text_of(l0)));
        assert forall|k: int| n0 <= k < l1s.len() implies (#[trigger] check_line(l1s[k], store)).1
            == FileStatus::Verified by {
            if k == n0 {
                assert(l1s[k] == l1s.take(lm.len() as int)[k]);
                assert(l1s[k] == entry_text(ts, f, h));
            }
        }
    } else {
        lemma_sealed_lines_verify(l0, rest, today, l1, store);
    }
}

/// Law: logs sealed into the ledger verify. Sealing log files with distinct
/// names (each a single word, as log file names are) into a valid-UTF-8
/// ledger whose text is empty or ends with a newline keeps the ledger's
/// lines and appends lines only; verifying the ledger against the same
/// files then reports every appended line as verified.
pub proof fn sealed_logs_verify(
    l0: Seq<u8>,
    files: Seq<(Seq<char>, Seq<u8>)>,
    today: Seq<char>,
    l1: Seq<u8>,
)
    requires
        valid_utf8(l0),
        ends_with_newline(decode_utf8(l0)),
        seals(l0, files, today, l1),
        forall|i: int| 0 <= i < files.len() ==> is_token(#[trigger] files[i].0),
        forall|a: int, b: int| 0 <= a < b < files.len() ==> files[a].0 != files[b].0,
    ensures
        valid_utf8(l1),
        lines_spec(text_of(l1)).take(lines_spec(text_of(l0)).len() as int) == lines_spec(text_of(l0)),
        lines_spec(text_of(l0)).len() <= verify_all_spec(true, l1, files).len(),
        forall|k: int|
            lines_spec(text_of(l0)).len() <= k < verify_all_spec(true, l1, files).len()
                ==> (#[trigger] verify_all_spec(true, l1, files)[k]).1 == FileStatus::Verified,
{
    assert forall|i: int| 0 <= i < files.len() implies is_token(#[trigger] files[i].0) && lookup_log(
        files,
        files[i].0,
    ) == Some(files[i].1) by {
        lemma_lookup_distinct(files, i);
    }
    lemma_sealed_lines_verify(l0, files, today, l1, files);
    if l1.len() == 0 {
        assert(decode_utf8(l1) =~= seq![]);
        assert(lines_spec(text_of(l1)) =~= seq![]);
    }
}

/// `line` is the ledger line that sealing the `i`-th file, stamped `ts`,
/// wrote (without its newline).
pub open spec fn line_seals(line: Seq<char>, files: Seq<(Seq<char>, Seq<u8>)>, i: int, ts: Seq<char>) -> bool {
    &&& 0 <= i < files.len()
    &&& is_utc_rfc3339(ts)
    &&& sha256_spec(files[i].1).len() == 32
    &&& line == entry_text(ts, files[i].0, hash_text(files[i].1))
}

/// `line` is the ledger line of sealing one of `files`.
pub open spec fn sealed_by_some(line: Seq<char>, files: Seq<(Seq<char>, Seq<u8>)>) -> bool {
    exists|i: int, ts: Seq<char>| #[trigger] line_seals(line, files, i, ts)
}

proof fn lemma_sealed_by_more(line: Seq<char>, files: Seq<(Seq<char>, Seq<u8>)>)
    requires
        files.len() > 0,
        sealed_by_some(line, files.drop_first()),
    ensures
        sealed_by_some(line, files),
{
    let rest = files.drop_first();
    let (j, t) = choose|j: int, t: Seq<char>| #[trigger] line_seals(line, rest, j, t);
    assert(rest[j] == files[j + 1]);
    assert(line_seals(line, files, j + 1, t));
}

proof fn lemma_sealed_lines_entries(l0: Seq<u8>, files: Seq<(Seq<char>, Seq<u8>)>, today: Seq<char>, l1: Seq<u8>)
    requires
        valid_utf8(l0),
        ends_with_newline(decode_utf8(l0)),
        seals(l0, files, today, l1),
        forall|i: int| 0 <= i < files.len() ==> is_token(#[trigger] files[i].0),
    ensures
        valid_utf8(l1),
        ends_with_newline(decode_utf8(l1)),
        lines_spec(text_of(l0)).len() <= lines_spec(text_of(l1)).len(),
        lines_spec(text_of(l1)).take(lines_spec(text_of(l0)).len() as int) == lines_spec(text_of(l0)),
        forall|k: int|
            lines_spec(text_of(l0)).len() <= k < lines_spec(text_of(l1)).len() ==> sealed_by_some(
                #[trigger] lines_spec(text_of(l1))[k],
                files,
            ),
    decreases files.len(),
{
    let n0 = lines_spec(text_of(l0)).len() as int;
    if files.len() == 0 {
        assert(lines_spec(text_of(l0)).take(n0) =~= lines_spec(text_of(l0)));
        return;
    }
    let f = files[0].0;
    let c = files[0].1;
    let rest = files.drop_first();
    assert forall|i: int| 0 <= i < rest.len() implies is_token(#[trigger] rest[i].0) by {
        assert(rest[i] == files[i + 1]);
    }
    assert(is_token(files[0].0));
    if should_seal_spec(l0, f, today) {
        let h = hash_text(c);
        let stamp = choose|ts: Seq<char>|
            is_utc_rfc3339(ts) && seals(l0 + encode_utf8(#[trigger] ledger_line_spec(ts, f, h)), rest, today, l1);
        let line = ledger_line_spec(stamp, f, h);
        let mid = l0 + encode_utf8(line);
        lemma_hex_lower_token(sha256_spec(c));
        lemma_append_encoded(l0, line);
        assert(line.last() == '\n');
        assert((decode_utf8(l0) + line).last() == '\n');
        sealed_line_reads_back(l0, stamp, f, h, seq![]);
        lemma_sealed_lines_entries(mid, rest, today, l1);
        let lm = lines_spec(text_of(mid));
        let l1s = lines_spec(text_of(l1));
        assert(lm == lines_spec(text_of(l0)).push(entry_text(stamp, f, h)));
        assert(l1s.take(lm.len() as int) == lm);
        assert(l1s.take(n0) =~= lm.take(n0));
        assert(lm.take(n0) =~= lines_spec(text_of(l0)));
        assert forall|k: int| n0 <= k < l1s.len() implies sealed_by_some(#[trigger] l1s[k], files) by {
            if k == n0 {
                assert(l1s[k] == l1s.take(lm.len() as int)[k]);
                assert(line_seals(l1s[k], files, 0, stamp));
            } else {
                lemma_sealed_by_more(l1s[k], files);
            }
        }
    } else {
        lemma_sealed_lines_entries(l0, rest, today, l1);
        let l1s = lines_spec(text_of(l1));
        assert forall|k: int| n0 <= k < l1s.len() implies sealed_by_some(#[trigger] l1s[k], files) by {
            lemma_sealed_by_more(l1s[k], files);
        }
    }
}

/// What verification reports for a log `f` sealed with contents `c`, checked
/// against the logs as they are now (`store`): missing when `f` is gone;
/// otherwise verified when its contents now hash as `c` did, mismatched when
/// they hash otherwise (so a change that changes the SHA-256 is reported).
pub open spec fn sealed_check(f: Seq<char>, c: Seq<u8>, store: Seq<(Seq<char>, Seq<u8>)>) -> FileCheck {
    match lookup_log(store, f) {
        None => (f, FileStatus::Missing, Some(hash_text(c)), None),
        Some(now) => (
            f,
            if hash_text(now) == hash_text(c) {
                FileStatus::Verified
            } else {
                FileStatus::Mismatched
            },
            Some(hash_text(c)),
            Some(hash_text(now)),
        ),
    }
}

/// Law: every line that sealing adds is checked against the log it sealed.
/// Seal log files (each name a single word) into a valid-UTF-8 ledger whose
/// text is empty or ends with a newline; then, against the logs as they are
/// at any later time, each added line reports the log it names as missing
/// if it is gone, mismatched if its contents now hash differently from the
/// sealed contents, and verified if they hash the same.
pub proof fn sealed_logs_checked_later(
    l0: Seq<u8>,
    files: Seq<(Seq<char>, Seq<u8>)>,
    today: Seq<char>,
    l1: Seq<u8>,
    later: Seq<(Seq<char>, Seq<u8>)>,
)
    requires
        valid_utf8(l0),
        ends_with_newline(decode_utf8(l0)),
        seals(l0, files, today, l1),
        forall|i: int| 0 <= i < files.len() ==> is_token(#[trigger] files[i].0),
    ensures
        valid_utf8(l1),
        lines_spec(text_of(l1)).take(lines_spec(text_of(l0)).len() as int) == lines_spec(text_of(l0)),
        lines_spec(text_of(l0)).len() <= verify_all_spec(true, l1, later).len(),
        forall|k: int|
            lines_spec(text_of(l0)).len() <= k < verify_all_spec(true, l1, later).len() ==> exists|i: int|
                0 <= i < files.len() && #[trigger] verify_all_spec(true, l1, later)[k] == sealed_check(
                    files[i].0,
                    files[i].1,
                    later,
                ),
{
    lemma_sealed_lines_entries(l0, files, today, l1);
    if l1.len() == 0 {
        assert(decode_utf8(l1) =~= seq![]);
        assert(lines_spec(text_of(l1)) =~= seq![]);
    }
    let n0 = lines_spec(text_of(l0)).len() as int;
    let l1s = lines_spec(text_of(l1));
    assert forall|k: int| n0 <= k < verify_all_spec(true, l1, later).len() implies exists|i: int|
        0 <= i < files.len() && #[trigger] verify_all_spec(true, l1, later)[k] == sealed_check(
            files[i].0,
            files[i].1,
            later,
        ) by {
        assert(sealed_by_some(l1s[k], files));
        let (i, ts) = choose|i: int, ts: Seq<char>| #[trigger] line_seals(l1s[k], files, i, ts);
        lemma_hex_lower_token(sha256_spec(files[i].1));
        lemma_entry_fields(ts, files[i].0, hash_text(files[i].1));
        assert(verify_all_spec(true, l1, later)[k] == check_line(l1s[k], later));
        assert(check_line(l1s[k], later) == sealed_check(files[i].0, files[i].1, later));
    }
}

/// Law: every line that sealing adds is stamped with the time of sealing.
/// Seal log files (each name a single word) into a valid-UTF-8 ledger whose
/// text is empty or ends with a newline; each line added splits into exactly
/// three words: a UTC time in RFC 3339 form, the name of one of the sealed
/// files, and the SHA-256 of that file's contents in lower-case hex.
#[verifier::spinoff_prover]
pub proof fn sealed_lines_are_stamped(
    l0: Seq<u8>,
    files: Seq<(Seq<char>, Seq<u8>)>,
    today: Seq<char>,
    l1: Seq<u8>,
)
    requires
        valid_utf8(l0),
        ends_with_newline(decode_utf8(l0)),
        seals(l0, files, today, l1),
        forall|i: int| 0 <= i < files.len() ==> is_token(#[trigger] files[i].0),
    ensures
        lines_spec(text_of(l1)).take(lines_spec(text_of(l0)).len() as int) == lines_spec(text_of(l0)),
        forall|k: int|
            lines_spec(text_of(l0)).len() <= k < lines_spec(text_of(l1)).len() ==> exists|i: int, ts: Seq<char>|
                #![trigger files[i], is_utc_rfc3339(ts)]
                0 <= i < files.len() && is_utc_rfc3339(ts) && split_whitespace_spec(
                    #[trigger] lines_spec(text_of(l1))[k],
                ) =~= seq![ts, files[i].0, hash_text(files[i].1)],
{
    lemma_sealed_lines_entries(l0, files, today, l1);
    let n0 = lines_spec(text_of(l0)).len() as int;
    let l1s = lines_spec(text_of(l1));
    assert forall|k: int|
        lines_spec(text_of(l0)).len() <= k < lines_spec(text_of(l1)).len() implies exists|i: int, ts: Seq<char>|
        #![trigger files[i], is_utc_rfc3339(ts)]
        0 <= i < files.len() && is_utc_rfc3339(ts) && split_whitespace_spec(
            #[trigger] lines_spec(text_of(l1))[k],
        ) =~= seq![ts, files[i].0, hash_text(files[i].1)] by {
        assert(sealed_by_some(l1s[k], files));
        let (i, ts) = choose|i: int, ts: Seq<char>| #[trigger] line_seals(l1s[k], files, i, ts);
        lemma_hex_lower_token(sha256_spec(files[i].1));
        lemma_entry_fields(ts, files[i].0, hash_text(files[i].1));
        assert(files[i] == files[i] && is_utc_rfc3339(ts));
    }
}

proof fn lemma_first_line_after(a: Seq<Seq<char>>, e: Seq<char>, b: Seq<Seq<char>>, f: Seq<char>)
    requires
        forall|k: int| 0 <= k < a.len() ==> !contains_spec(#[trigger] a[k], f),
        contains_spec(e, f),
    ensures
        first_line_containing(a + seq![e] + b, f) == Some(e),
    decreases a.len(),
{
    let all = a + seq![e] + b;
    if a.len() == 0 {
        assert(all[0] == e);
    } else {
        assert(all[0] == a[0]);
        assert(!contains_spec(a[0], f));
        let a1 = a.drop_first();
        assert(all.drop_first() =~= a1 + seq![e] + b);
        assert forall|k: int| 0 <= k < a1.len() implies !contains_spec(#[trigger] a1[k], f) by {
            assert(a1[k] == a[k + 1]);
        }
        lemma_first_line_after(a1, e, b, f);
    }
}

/// Law: checking one day's log compares against the hash stored on the ledger
/// line that names that log, wherever the line stands. Let a valid-UTF-8
/// ledger whose text is empty or ends with a newline, and none of whose lines
/// mentions the log's name `f`, be followed by the line `ts f h` and then by
/// any text. Checking the day's log with contents `now` then reports that one
/// file, with stored hash `h` and computed hash the SHA-256 of `now`:
/// verified when the two are equal, mismatched otherwise.
pub proof fn date_check_reads_the_line_naming_the_log(
    l0: Seq<u8>,
    ts: Seq<char>,
    f: Seq<char>,
    h: Seq<char>,
    after: Seq<char>,
    now: Seq<u8>,
)
    requires
        valid_utf8(l0),
        ends_with_newline(decode_utf8(l0)),
        is_token(ts),
        is_token(f),
        is_token(h),
        forall|k: int|
            0 <= k < lines_spec(text_of(l0)).len() ==> !contains_spec(#[trigger] lines_spec(text_of(l0))[k], f),
    ensures
        verify_date_spec(true, Some(f), l0 + encode_utf8(ledger_line_spec(ts, f, h) + after), Some(now))
            == seq![
            (
                f,
                if h == hash_text(now) {
                    FileStatus::Verified
                } else {
                    FileStatus::Mismatched
                },
                Some(h),
                Some(hash_text(now)),
            ),
        ],
{
    let line = ledger_line_spec(ts, f, h);
    let e = entry_text(ts, f, h);
    let ledger = l0 + encode_utf8(line + after);
    let t = decode_utf8(l0);
    lemma_append_encoded(l0, line + after);
    lemma_append_encoded(l0, line);
    sealed_line_reads_back(l0, ts, f, h, seq![]);
    lemma_entry_fields(ts, f, h);
    assert(line.last() == '\n');
    assert(t + (line + after) =~= (t + line) + after);
    lemma_line_pieces_concat(t + line, after, seq![]);
    let all = lines_spec(text_of(ledger));
    assert(all == lines_spec(t).push(e) + lines_spec(after));
    assert(lines_spec(t).push(e) + lines_spec(after) =~= lines_spec(t) + seq![e] + lines_spec(after));
    let i: int = (ts.len() + 1) as int;
    assert(e.subrange(i, i + f.len()) =~= f);
    assert(occurs_at(e, f, i));
    lemma_first_line_after(lines_spec(t), e, lines_spec(after), f);
    assert(decode_utf8(ledger).len() > 0);
    if ledger.len() == 0 {
        assert(ledger =~= seq![]);
        assert(encode_utf8(seq![]) =~= seq![]);
        encode_utf8_decode_utf8(seq![]);
    }
}

} // verus!
