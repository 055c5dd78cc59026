//! Machine code derivation: a hardware fingerprint list is joined with `:`,
//! hashed with SHA-256, rendered as lowercase hex and grouped into
//! dash-separated chunks of four characters for display.
use vstd::prelude::*;
use vstd::string::StringExecFns;
use vstd::string::StrSliceExecFns;
use vstd::utf8::encode_utf8;
use sha2::Digest;

verus! {

/// SHA-256 digest of a byte sequence; pinned down only by the trusted
/// wrapper below, never restated in this crate.
pub uninterp spec fn sha256_digest(data: Seq<u8>) -> Seq<u8>;

/// Relies on sha2::Sha256 (the Digest::digest one-shot): the SHA-256 digest
/// of the input bytes, a pure function of the input, always 32 bytes long.
#[verifier::external_body]
fn sha256(data: &Vec<u8>) -> (r: Vec<u8>)
    ensures
        r@ == sha256_digest(data@),
        r@.len() == 32,
{
    sha2::Sha256::digest(data.as_slice()).to_vec()
}

/// The lowercase hexadecimal character for a nibble value.
pub open spec fn hex_char(n: int) -> char {
    if n == 0 { '0' } else if n == 1 { '1' } else if n == 2 { '2' } else if n == 3 { '3' }
    else if n == 4 { '4' } else if n == 5 { '5' } else if n == 6 { '6' } else if n == 7 { '7' }
    else if n == 8 { '8' } else if n == 9 { '9' } else if n == 10 { 'a' } else if n == 11 { 'b' }
    else if n == 12 { 'c' } else if n == 13 { 'd' } else if n == 14 { 'e' } else { 'f' }
}

pub open spec fn is_hex_char(c: char) -> bool {
    ('0' <= c && c <= '9') || ('a' <= c && c <= 'f')
}

/// Lowercase hexadecimal rendering of a byte sequence, two characters per byte.
pub open spec fn hex_of(b: Seq<u8>) -> Seq<char>
    decreases b.len(),
{
    if b.len() == 0 {
        Seq::empty()
    } else {
        hex_of(b.drop_last()) + seq![hex_char(b.last() as int / 16), hex_char(b.last() as int % 16)]
    }
}

fn hex_digit_str(n: u8) -> (r: &'static str)
    requires
        n < 16,
    ensures
        r@ == seq![hex_char(n as int)],
{
    proof {
        reveal_strlit("0"); reveal_strlit("1"); reveal_strlit("2"); reveal_strlit("3");
        reveal_strlit("4"); reveal_strlit("5"); reveal_strlit("6"); reveal_strlit("7");
        reveal_strlit("8"); reveal_strlit("9"); reveal_strlit("a"); reveal_strlit("b");
        reveal_strlit("c"); reveal_strlit("d"); reveal_strlit("e"); reveal_strlit("f");
    }
    let r = if n == 0 { "0" } else if n == 1 { "1" } else if n == 2 { "2" } else if n == 3 { "3" }
    else if n == 4 { "4" } else if n == 5 { "5" } else if n == 6 { "6" } else if n == 7 { "7" }
    else if n == 8 { "8" } else if n == 9 { "9" } else if n == 10 { "a" } else if n == 11 { "b" }
    else if n == 12 { "c" } else if n == 13 { "d" } else if n == 14 { "e" } else { "f" };
    proof {
        assert(r@ =~= seq![hex_char(n as int)]);
    }
    r
}

/// Renders bytes as lowercase hex.
pub fn to_hex(bytes: &Vec<u8>) -> (r: String)
    ensures
        r@ == hex_of(bytes@),
{
    let mut out = String::new();
    let mut i: usize = 0;
    while i < bytes.len()
        invariant
            i <= bytes.len(),
            out@ == hex_of(bytes@.take(i as int)),
        decreases bytes.len() - i,
    {
        let b = bytes[i];
        out.append(hex_digit_str(b / 16));
        out.append(hex_digit_str(b % 16));
        proof {
            let pre = bytes@.take(i + 1int);
            assert(pre.drop_last() =~= bytes@.take(i as int));
            assert(pre.last() == bytes@[i as int]);
            assert(out@ =~= hex_of(pre));
        }
        i = i + 1;
    }
    proof {
        assert(bytes@.take(bytes@.len() as int) =~= bytes@);
    }
    out
}

/// Every character of a hex rendering is a lowercase hex digit, and the
/// rendering is twice as long as the input.
pub proof fn lemma_hex_of_is_hex(b: Seq<u8>)
    ensures
        hex_of(b).len() == 2 * b.len(),
        forall|i: int| 0 <= i < hex_of(b).len() ==> is_hex_char(#[trigger] hex_of(b)[i]),
    decreases b.len(),
{
    if b.len() > 0 {
        lemma_hex_of_is_hex(b.drop_last());
    }
}

/// The display grouping: chunks of four characters joined by `-`; the last
/// chunk is whatever remains and may be shorter.
pub open spec fn dash_grouped(s: Seq<char>) -> Seq<char>
    decreases s.len(),
{
    if s.len() <= 4 {
        s
    } else {
        s.take(4) + seq!['-'] + dash_grouped(s.skip(4))
    }
}

/// Re-chunks a code string into groups of four characters joined by `-`.
pub fn format_activation_code(code: &str) -> (r: String)
    ensures
        r@ == dash_grouped(code@),
{
    let n = code.unicode_len();
    let mut out = String::new();
    proof {
        assert(code@.skip(0) =~= code@);
        assert(out@ + dash_grouped(code@) =~= dash_grouped(code@));
    }
    let mut i: usize = 0;
    while i < n
        invariant
            i <= n,
            n == code@.len(),
            dash_grouped(code@) == out@ + dash_grouped(code@.skip(i as int)),
        decreases n - i,
    {
        let j = if n - i > 4 { i + 4 } else { n };
        let ghost out_before = out@;
        out.append(code.substring_char(i, j));
        if j < n {
            out.append("-");
        }
        proof {
            reveal_strlit("-");
            let rest = code@.skip(i as int);
            if j < n {
                assert(rest.take(4) =~= code@.subrange(i as int, j as int));
                assert(rest.skip(4) =~= code@.skip(j as int));
                assert(dash_grouped(rest) == rest.take(4) + seq!['-'] + dash_grouped(rest.skip(4)));
                assert(out@ + dash_grouped(code@.skip(j as int)) =~= out_before + dash_grouped(rest));
            } else {
                assert(rest =~= code@.subrange(i as int, j as int));
                assert(dash_grouped(rest) == rest);
                assert(code@.skip(j as int) =~= Seq::<char>::empty());
                assert(out@ + dash_grouped(code@.skip(j as int)) =~= out_before + dash_grouped(rest));
            }
        }
        i = j;
    }
    proof {
        assert(code@.skip(n as int) =~= Seq::<char>::empty());
        assert(out@ + dash_grouped(code@.skip(n as int)) =~= out@);
    }
    out
}

/// The exact shape of the grouped display form: every fifth character is a
/// dash and every other character comes from the raw code, in order; the
/// length accounts for one dash between consecutive groups of four.
pub proof fn lemma_dash_grouped_shape(s: Seq<char>)
    ensures
        dash_grouped(s).len() == s.len() + (if s.len() == 0 { 0int } else { (s.len() - 1) / 4 }),
        forall|i: int| 0 <= i < dash_grouped(s).len() ==>
            #[trigger] dash_grouped(s)[i] == (if i % 5 == 4 { '-' } else { s[i - i / 5] }),
    decreases s.len(),
{
    if s.len() > 4 {
        lemma_dash_grouped_shape(s.skip(4));
        let g = dash_grouped(s);
        let rest = dash_grouped(s.skip(4));
        assert forall|i: int| 0 <= i < g.len() implies
            #[trigger] g[i] == (if i % 5 == 4 { '-' } else { s[i - i / 5] }) by {
            if i >= 5 {
                assert(g[i] == rest[i - 5]);
                assert((i - 5) % 5 == i % 5) by (nonlinear_arith);
                assert((i - 5) / 5 == i / 5 - 1) by (nonlinear_arith);
                if i % 5 != 4 {
                    assert(rest[i - 5] == s.skip(4)[(i - 5) - (i - 5) / 5]);
                    assert(s.skip(4)[(i - 5) - (i - 5) / 5] == s[i - i / 5]);
                }
            }
        }
    }
}

proof fn lemma_strip_dashes_concat(a: Seq<char>, b: Seq<char>)
    ensures
        strip_dashes(a + b) == strip_dashes(a) + strip_dashes(b),
    decreases b.len(),
{
    if b.len() == 0 {
        assert(a + b =~= a);
        assert(strip_dashes(a) + strip_dashes(b) =~= strip_dashes(a));
    } else {
        lemma_strip_dashes_concat(a, b.drop_last());
        assert((a + b).drop_last() =~= a + b.drop_last());
        assert((a + b).last() == b.last());
        if b.last() != '-' {
            assert(strip_dashes(a) + strip_dashes(b) =~= (strip_dashes(a) + strip_dashes(
                b.drop_last(),
            )).push(b.last()));
        }
    }
}

/// Removing dashes from a text that holds none leaves it unchanged.
pub proof fn lemma_strip_dashes_no_dash(s: Seq<char>)
    requires
        forall|i: int| 0 <= i < s.len() ==> s[i] != '-',
    ensures
        strip_dashes(s) == s,
    decreases s.len(),
{
    if s.len() > 0 {
        lemma_strip_dashes_no_dash(s.drop_last());
        assert(strip_dashes(s.drop_last()).push(s.last()) =~= s);
    }
}

/// Grouping round trip: a code that holds no dash of its own — every
/// machine code's raw hex does — is recovered exactly by removing the
/// dashes from its grouped display form, so the display form cuts the code
/// into consecutive chunks joined by `-` and loses nothing.
pub proof fn lemma_dash_grouped_round_trip(s: Seq<char>)
    requires
        forall|i: int| 0 <= i < s.len() ==> s[i] != '-',
    ensures
        strip_dashes(dash_grouped(s)) == s,
    decreases s.len(),
{
    if s.len() <= 4 {
        lemma_strip_dashes_no_dash(s);
    } else {
        let rest = s.skip(4);
        assert forall|i: int| 0 <= i < rest.len() implies rest[i] != '-' by {
            assert(rest[i] == s[i + 4]);
        }
        lemma_dash_grouped_round_trip(rest);
        lemma_strip_dashes_concat(s.take(4) + seq!['-'], dash_grouped(rest));
        lemma_strip_dashes_concat(s.take(4), seq!['-']);
        assert forall|i: int| 0 <= i < s.take(4).len() implies s.take(4)[i] != '-' by {
            assert(s.take(4)[i] == s[i]);
        }
        lemma_strip_dashes_no_dash(s.take(4));
        assert(seq!['-'].drop_last() =~= Seq::<char>::empty());
        assert(strip_dashes(Seq::<char>::empty()) =~= Seq::<char>::empty());
        assert(strip_dashes(seq!['-']) =~= Seq::<char>::empty());
        assert(strip_dashes(dash_grouped(s)) =~= s);
    }
}

/// Joins byte strings with an ASCII colon separator.
pub open spec fn join_colon(parts: Seq<Seq<u8>>) -> Seq<u8>
    decreases parts.len(),
{
    if parts.len() == 0 {
        Seq::empty()
    } else if parts.len() == 1 {
        parts.last()
    } else {
        join_colon(parts.drop_last()) + seq![58u8] + parts.last()
    }
}

fn join_with_colon(infos: &Vec<String>) -> (r: Vec<u8>)
    ensures
        r@ == join_colon(infos@.map_values(|s: String| encode_utf8(s@))),
{
    let ghost parts = infos@.map_values(|s: String| encode_utf8(s@));
    let mut out: Vec<u8> = Vec::new();
    let mut i: usize = 0;
    while i < infos.len()
        invariant
            i <= infos.len(),
            parts == infos@.map_values(|s: String| encode_utf8(s@)),
            out@ == join_colon(parts.take(i as int)),
        decreases infos.len() - i,
    {
        if i > 0 {
            out.push(58);
        }
        let piece = infos[i].as_str().as_bytes();
        out.extend_from_slice(piece);
        proof {
            let pre = parts.take(i + 1int);
            assert(pre.drop_last() =~= parts.take(i as int));
            assert(pre.last() == parts[i as int]);
            assert(parts[i as int] == encode_utf8(infos@[i as int]@));
            if i == 0 {
                assert(out@ =~= join_colon(pre));
            } else {
                assert(out@ =~= join_colon(pre));
            }
        }
        i = i + 1;
    }
    proof {
        assert(parts.take(parts.len() as int) =~= parts);
    }
    out
}

/// The machine code derived from a fingerprint list, as displayed: the
/// SHA-256 digest of the `:`-joined identifiers, in lowercase hex, grouped
/// into dash-separated chunks of four.
pub open spec fn machine_code_of(infos: Seq<Seq<u8>>) -> Seq<char> {
    dash_grouped(hex_of(sha256_digest(join_colon(infos))))
}

/// Every character of the machine code display form is either a lowercase hex
/// digit or the dash that stands between groups of four.
pub open spec fn is_machine_code_format(s: Seq<char>) -> bool {
    forall|i: int| 0 <= i < s.len() ==>
        (if i % 5 == 4 { #[trigger] s[i] == '-' } else { is_hex_char(s[i]) })
}

/// Derives the display machine code from an ordered fingerprint list.
pub fn get_machine_code(infos: &Vec<String>) -> (r: String)
    ensures
        r@ == machine_code_of(infos@.map_values(|s: String| encode_utf8(s@))),
        is_machine_code_format(r@),
        r@.len() == 79,
        strip_dashes(r@) == hex_of(sha256_digest(join_colon(infos@.map_values(|s: String| encode_utf8(s@))))),
{
    let joined = join_with_colon(infos);
    let digest = sha256(&joined);
    let hex = to_hex(&digest);
    proof {
        lemma_hex_of_is_hex(digest@);
        lemma_dash_grouped_shape(hex@);
        assert forall|i: int| 0 <= i < hex@.len() implies hex@[i] != '-' by {
            assert(is_hex_char(hex@[i]));
        }
        lemma_dash_grouped_round_trip(hex@);
    }
    format_activation_code(hex.as_str())
}

/// Machine code derivation is a pure function of the fingerprint list:
/// equal lists always yield byte-identical codes.
pub proof fn lemma_machine_code_deterministic(a: Seq<Seq<u8>>, b: Seq<Seq<u8>>)
    requires
        a == b,
    ensures
        machine_code_of(a) == machine_code_of(b),
{
}

/// A code string with its dashes removed.
pub open spec fn strip_dashes(s: Seq<char>) -> Seq<char>
    decreases s.len(),
{
    if s.len() == 0 {
        Seq::empty()
    } else if s.last() == '-' {
        strip_dashes(s.drop_last())
    } else {
        strip_dashes(s.drop_last()).push(s.last())
    }
}

fn strip_dash_chars(s: &str) -> (r: Vec<char>)
    ensures
        r@ == strip_dashes(s@),
{
    let n = s.unicode_len();
    let mut out: Vec<char> = Vec::new();
    let mut i: usize = 0;
    while i < n
        invariant
            i <= n,
            n == s@.len(),
            out@ == strip_dashes(s@.take(i as int)),
        decreases n - i,
    {
        let c = s.get_char(i);
        if c != '-' {
            out.push(c);
        }
        proof {
            let pre = s@.take(i + 1int);
            assert(pre.drop_last() =~= s@.take(i as int));
            assert(pre.last() == s@[i as int]);
        }
        i = i + 1;
    }
    proof {
        assert(s@.take(s@.len() as int) =~= s@);
    }
    out
}

/// Compares two codes while ignoring dashes, the normalization used for
/// device binding.
pub fn codes_match(device_id: &str, machine_code: &str) -> (r: bool)
    ensures
        r == (strip_dashes(device_id@) == strip_dashes(machine_code@)),
{
    let a = strip_dash_chars(device_id);
    let b = strip_dash_chars(machine_code);
    if a.len() != b.len() {
        return false;
    }
    let mut i: usize = 0;
    while i < a.len()
        invariant
            i <= a.len(),
            a.len() == b.len(),
            a@ == strip_dashes(device_id@),
            b@ == strip_dashes(machine_code@),
            forall|k: int| 0 <= k < i ==> a@[k] == b@[k],
        decreases a.len() - i,
    {
        if a[i] != b[i] {
            return false;
        }
        i = i + 1;
    }
    proof {
        assert(a@ =~= b@);
    }
    true
}

} // verus!
