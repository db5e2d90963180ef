//! PCI bus addresses as keys.

use crate::text;
use vstd::prelude::*;

verus! {

/// The number of a PCI domain, read as hexadecimal; 0 where it is none or too large.
pub open spec fn domain_number(domain: Seq<char>) -> nat {
    match text::numeral_up_to(text::stripped_start(domain, "0"@), 16, u32::MAX as nat) {
        Some(n) => n,
        None => 0,
    }
}

/// The key of a PCI bus address: trimmed, in lower case, its domain as a bare hexadecimal
/// number. A text without a `:` has no domain and is only trimmed and lowered.
pub open spec fn normalized(raw: Seq<char>) -> Seq<char> {
    let s = text::lowered(text::trimmed(raw));
    match text::halves(s, ':') {
        Some((domain, rest)) => text::hex(domain_number(domain)) + seq![':'] + rest,
        None => s,
    }
}

/// The key of a PCI bus address.
///
/// `nvidia-smi` writes the domain with eight hexadecimal digits (`00000000:01:00.0`) and the
/// directories under `/proc/driver/nvidia/gpus` carry four (`0000:01:00.0`): both give one key.
pub fn normalize_pci_bus_id(raw: &str) -> (r: String)
    ensures
        r@ == normalized(raw@),
{
    let chars = text::chars_of(raw);
    let s = text::to_ascii_lowercase(text::trim(chars.as_slice()));
    match text::split_once(s.as_slice(), ':') {
        Some((domain, rest)) => {
            let bare = text::trim_start_matches(domain, "0");
            let number: u32 = match text::read_numeral(bare, 16, 0xffff_ffff) {
                Some(n) => n as u32,
                None => 0,
            };
            let mut out: Vec<char> = Vec::new();
            text::push_hex(&mut out, number);
            out.push(':');
            let n = rest.len();
            let mut i: usize = 0;
            let ghost head = out@;
            while i < n
                invariant
                    i <= n,
                    n == rest@.len(),
                    out@ == head + rest@.take(i as int),
                decreases n - i,
            {
                out.push(rest[i]);
                i += 1;
                assert(out@ =~= head + rest@.take(i as int));
            }
            assert(rest@.take(n as int) =~= rest@);
            assert(out@ =~= text::hex(number as nat) + seq![':'] + rest@);
            text::string_of(out.as_slice())
        },
        None => text::string_of(s.as_slice()),
    }
}

proof fn lemma_domain_of_hex(n: nat)
    requires
        n <= u32::MAX,
    ensures
        domain_number(text::hex(n)) == n,
{
    reveal_strlit("0");
    text::lemma_hex(n);
    let h = text::hex(n);
    if n == 0 {
        assert(h =~= "0"@);
        assert(h.subrange(0, 1) =~= h);
        assert(h.skip(1) =~= Seq::<char>::empty());
        reveal_with_fuel(text::stripped_start, 2);
    } else {
        assert(h.subrange(0, 1)[0] == h[0]);
        assert(!text::begins(h, "0"@));
        assert(h[0] != '+');
    }
}

proof fn lemma_halves_of_key(n: nat, rest: Seq<char>)
    ensures
        text::halves(text::hex(n) + seq![':'] + rest, ':') == Some((text::hex(n), rest)),
{
    text::lemma_hex(n);
    let s = text::hex(n) + seq![':'] + rest;
    let k = text::hex(n).len() as int;
    assert forall|j: int| 0 <= j < k implies s[j] != ':' by {
        assert(s[j] == text::hex(n)[j]);
    }
    text::lemma_span_is(s, ':', k);
    assert(s.take(k) =~= text::hex(n));
    assert(s.skip(k + 1) =~= rest);
}

proof fn lemma_lowered_trimmed(raw: Seq<char>)
    ensures
        ({
            let s = text::lowered(text::trimmed(raw));
            &&& text::trimmed(s) == s
            &&& text::lowered(s) == s
        }),
{
    text::lemma_trimmed_ends(raw);
    text::lemma_lowered(text::trimmed(raw));
    text::lemma_trimmed_fixed(text::lowered(text::trimmed(raw)));
}

/// A key begins with a digit and ends as its address does, so that it is trimmed.
proof fn lemma_key_is_trimmed(s: Seq<char>, domain: Seq<char>, rest: Seq<char>)
    requires
        text::halves(s, ':') == Some((domain, rest)),
        !text::is_space(s.last()),
    ensures
        ({
            let k = text::hex(domain_number(domain)) + seq![':'] + rest;
            text::trimmed(k) == k
        }),
{
    let h = text::hex(domain_number(domain));
    let k = h + seq![':'] + rest;
    text::lemma_hex(domain_number(domain));
    text::lemma_span(s, ':');
    assert(k[0] == h[0]);
    if rest.len() > 0 {
        assert(k.last() == rest.last());
        assert(rest.last() == s.last());
    } else {
        assert(k.last() == ':');
    }
    text::lemma_trimmed_fixed(k);
}

/// A key of an address in lower case is in lower case.
proof fn lemma_key_is_lowered(s: Seq<char>, domain: Seq<char>, rest: Seq<char>)
    requires
        text::halves(s, ':') == Some((domain, rest)),
        text::lowered(s) == s,
    ensures
        ({
            let k = text::hex(domain_number(domain)) + seq![':'] + rest;
            text::lowered(k) == k
        }),
{
    let h = text::hex(domain_number(domain));
    let k = h + seq![':'] + rest;
    text::lemma_hex(domain_number(domain));
    text::lemma_span(s, ':');
    assert forall|i: int| 0 <= i < k.len() implies text::lower(#[trigger] k[i]) == k[i] by {
        if i < h.len() {
            assert(k[i] == h[i]);
        } else if i > h.len() {
            let j = i - h.len() - 1;
            let m = domain.len() + 1 + j;
            assert(k[i] == rest[j]);
            assert(rest[j] == s[m]);
            assert(text::lowered(s)[m] == text::lower(s[m]));
        }
    }
    assert(text::lowered(k) =~= k);
}

/// The key of a key is the key itself.
pub proof fn law_key_is_stable(raw: Seq<char>)
    ensures
        normalized(normalized(raw)) == normalized(raw),
{
    let s = text::lowered(text::trimmed(raw));
    lemma_lowered_trimmed(raw);
    match text::halves(s, ':') {
        Some((domain, rest)) => {
            text::lemma_span(s, ':');
            text::lemma_trimmed_ends(s);
            lemma_key_is_trimmed(s, domain, rest);
            lemma_key_is_lowered(s, domain, rest);
            lemma_halves_of_key(domain_number(domain), rest);
            lemma_domain_of_hex(domain_number(domain));
        },
        None => {},
    }
}

/// A leading zero of the domain does not change the key.
pub proof fn law_leading_zero_is_ignored(s: Seq<char>)
    requires
        text::trimmed(s) == s,
        s.contains(':'),
    ensures
        normalized(seq!['0'] + s) == normalized(s),
{
    let z = seq!['0'] + s;
    reveal_strlit("0");
    text::lemma_trimmed_ends(s);
    assert(z.last() == s.last());
    text::lemma_trimmed_fixed(z);
    let a = text::lowered(s);
    let b = text::lowered(z);
    assert(b =~= seq!['0'] + a);
    text::lemma_span(a, ':');
    let i = choose|i: int| 0 <= i < s.len() && s[i] == ':';
    assert(a[i] == ':');
    let n = text::span(a, ':') as int;
    assert forall|j: int| 0 <= j < n + 1 implies b[j] != ':' by {
        if j > 0 {
            assert(b[j] == a[j - 1]);
        }
    }
    text::lemma_span_is(b, ':', n + 1);
    let d = a.take(n);
    assert(b.take(n + 1) =~= seq!['0'] + d);
    assert(b.skip(n + 2) =~= a.skip(n + 1));
    let e = seq!['0'] + d;
    assert(e.subrange(0, 1) =~= "0"@);
    assert(e.skip(1) =~= d);
}

/// Two addresses have one key exactly when their domain numbers and the rest of them agree, so
/// no two devices share a key.
pub proof fn law_one_key_per_address(a: Seq<char>, b: Seq<char>)
    requires
        text::halves(text::lowered(text::trimmed(a)), ':') is Some,
        text::halves(text::lowered(text::trimmed(b)), ':') is Some,
    ensures
        ({
            let x = text::halves(text::lowered(text::trimmed(a)), ':')->0;
            let y = text::halves(text::lowered(text::trimmed(b)), ':')->0;
            normalized(a) == normalized(b) <==> domain_number(x.0) == domain_number(y.0) && x.1
                == y.1
        }),
{
    let x = text::halves(text::lowered(text::trimmed(a)), ':')->0;
    let y = text::halves(text::lowered(text::trimmed(b)), ':')->0;
    lemma_halves_of_key(domain_number(x.0), x.1);
    lemma_halves_of_key(domain_number(y.0), y.1);
    lemma_domain_of_hex(domain_number(x.0));
    lemma_domain_of_hex(domain_number(y.0));
}

/// `k` zeros.
pub open spec fn zeros(k: nat) -> Seq<char> {
    Seq::new(k, |i: int| '0')
}

proof fn lemma_zeros_are_stripped(k: nat, s: Seq<char>)
    ensures
        text::stripped_start(zeros(k) + s, "0"@) == text::stripped_start(s, "0"@),
    decreases k,
{
    reveal_strlit("0");
    if k == 0 {
        assert(zeros(k) + s =~= s);
    } else {
        let rest = zeros((k - 1) as nat) + s;
        assert(zeros(k) + s =~= "0"@ + rest);
        text::law_stripping(rest, "0"@);
        lemma_zeros_are_stripped((k - 1) as nat, s);
    }
}

proof fn lemma_large_domain(n: nat)
    requires
        n > u32::MAX,
    ensures
        domain_number(text::hex(n)) == 0,
{
    reveal_strlit("0");
    text::lemma_hex(n);
    text::law_numerals_read_back(n, u32::MAX as nat);
    let h = text::hex(n);
    assert(h.subrange(0, 1)[0] == h[0]);
    assert(!text::begins(h, "0"@));
}

/// An address is keyed by the number of its domain: with any number of zeros before it, and any
/// white space around the address, the key is that number in hexadecimal and the rest as it is.
/// A domain of more than 32 bits counts as zero.
pub proof fn law_address_is_keyed_by_number(
    a: Seq<char>,
    k: nat,
    n: nat,
    rest: Seq<char>,
    b: Seq<char>,
)
    requires
        text::blank(a),
        text::blank(b),
        text::lowered(rest) == rest,
        rest.len() > 0 ==> !text::is_space(rest.last()),
    ensures
        normalized(a + (zeros(k) + text::hex(n) + seq![':'] + rest) + b) == text::hex(
            if n <= u32::MAX {
                n
            } else {
                0
            },
        ) + seq![':'] + rest,
{
    let d = zeros(k) + text::hex(n);
    let m = d + seq![':'] + rest;
    text::lemma_hex(n);
    let h = text::hex(n);
    assert forall|i: int| 0 <= i < d.len() implies '0' <= #[trigger] d[i] <= '9' || 'a' <= d[i]
        <= 'f' by {
        if i >= k {
            assert(d[i] == h[i - k]);
        }
    }
    assert(m[0] == d[0]);
    assert(!text::is_space(m[0]));
    if rest.len() > 0 {
        assert(m.last() == rest.last());
    } else {
        assert(m.last() == ':');
    }
    text::law_trimming(a, m, b);
    assert(text::lowered(m) =~= m) by {
        assert forall|i: int| 0 <= i < m.len() implies text::lower(#[trigger] m[i]) == m[i] by {
            if i < d.len() {
                assert(m[i] == d[i]);
            } else if i > d.len() {
                let j = i - d.len() - 1;
                assert(m[i] == rest[j]);
                assert(text::lowered(rest)[j] == text::lower(rest[j]));
            }
        }
    }
    assert(!d.contains(':'));
    text::law_splitting_once(d, ':', rest);
    lemma_zeros_are_stripped(k, h);
    if n <= u32::MAX {
        lemma_domain_of_hex(n);
    } else {
        lemma_large_domain(n);
    }
}

proof fn lemma_stripped_zeros_keep_the_rest(d: Seq<char>, i: int) -> (k: int)
    requires
        0 <= i < d.len(),
        d[i] != '0',
    ensures
        0 <= k <= i,
        text::stripped_start(d, "0"@) == d.skip(k),
    decreases d.len(),
{
    reveal_strlit("0");
    if text::begins(d, "0"@) {
        assert(d.subrange(0, 1)[0] == d[0]);
        let k = lemma_stripped_zeros_keep_the_rest(d.skip(1), i - 1);
        assert(d.skip(1).skip(k) =~= d.skip(k + 1));
        k + 1
    } else {
        assert(d.skip(0) =~= d);
        0
    }
}

/// A domain that holds anything but hexadecimal digits counts as zero.
pub proof fn law_domain_that_is_no_number(d: Seq<char>, rest: Seq<char>, i: int)
    requires
        0 <= i < d.len(),
        text::digit(d[i], 16) is None,
        d[i] != '+',
        !d.contains(':'),
        text::trimmed(d + seq![':'] + rest) == d + seq![':'] + rest,
        text::lowered(d + seq![':'] + rest) == d + seq![':'] + rest,
    ensures
        normalized(d + seq![':'] + rest) == seq!['0', ':'] + rest,
{
    text::law_splitting_once(d, ':', rest);
    let k = lemma_stripped_zeros_keep_the_rest(d, i);
    let t = d.skip(k);
    assert(t[i - k] == d[i]);
    text::law_only_digits_are_numerals(t, 16, u32::MAX as nat, i - k);
    assert(text::hex(0) + seq![':'] + rest =~= seq!['0', ':'] + rest);
}

proof fn lemma_trimmed_of_lowered(s: Seq<char>)
    ensures
        text::trimmed(text::lowered(s)) == text::lowered(text::trimmed(s)),
{
    lemma_trimmed_start_of_lowered(s);
    lemma_trimmed_end_of_lowered(text::trimmed_start(s));
}

proof fn lemma_trimmed_start_of_lowered(s: Seq<char>)
    ensures
        text::trimmed_start(text::lowered(s)) == text::lowered(text::trimmed_start(s)),
    decreases s.len(),
{
    text::lemma_lowered(s);
    if s.len() > 0 && text::is_space(s[0]) {
        assert(text::lowered(s).drop_first() =~= text::lowered(s.drop_first()));
        lemma_trimmed_start_of_lowered(s.drop_first());
    }
}

proof fn lemma_trimmed_end_of_lowered(s: Seq<char>)
    ensures
        text::trimmed_end(text::lowered(s)) == text::lowered(text::trimmed_end(s)),
    decreases s.len(),
{
    text::lemma_lowered(s);
    if s.len() > 0 && text::is_space(s.last()) {
        assert(text::lowered(s).drop_last() =~= text::lowered(s.drop_last()));
        lemma_trimmed_end_of_lowered(s.drop_last());
    }
}

/// Capital letters and white space around an address do not change its key, and a text without a
/// colon is its own key but for them.
pub proof fn law_spelling_does_not_matter(raw: Seq<char>)
    ensures
        normalized(text::lowered(raw)) == normalized(raw),
        normalized(text::trimmed(raw)) == normalized(raw),
        !text::trimmed(raw).contains(':') ==> normalized(raw) == text::lowered(text::trimmed(raw)),
{
    lemma_trimmed_of_lowered(raw);
    text::lemma_lowered(text::trimmed(raw));
    text::lemma_trimmed_ends(raw);
    text::lemma_trimmed_fixed(text::trimmed(raw));
    let t = text::trimmed(raw);
    let s = text::lowered(t);
    if !t.contains(':') {
        assert forall|i: int| 0 <= i < s.len() implies s[i] != ':' by {
            text::law_lower_case(t, i);
            assert(t[i] != ':');
        }
        text::law_splitting_once(s, ':', seq![]);
    }
}

} // verus!
