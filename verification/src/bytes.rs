//! Byte-level text utilities: splitting and joining on a separator byte,
//! with the round-trip lemmas the catalog codec rests on.

use vstd::prelude::*;

verus! {

/// The position of the first occurrence of `sep` in `s`, or `s.len()` if
/// there is none.
pub open spec fn sep_pos(s: Seq<u8>, sep: u8) -> nat
    decreases s.len(),
{
    if s.len() == 0 {
        0
    } else if s[0] == sep {
        0
    } else {
        1 + sep_pos(s.drop_first(), sep)
    }
}

/// What `sep_pos` finds: the first occurrence of `sep`, or the length when
/// `s` has no `sep`.
pub proof fn lemma_sep_pos(s: Seq<u8>, sep: u8)
    ensures
        sep_pos(s, sep) <= s.len(),
        sep_pos(s, sep) < s.len() ==> s[sep_pos(s, sep) as int] == sep,
        forall|j: int| 0 <= j < sep_pos(s, sep) ==> s[j] != sep,
    decreases s.len(),
{
    if s.len() > 0 && s[0] != sep {
        lemma_sep_pos(s.drop_first(), sep);
        assert forall|j: int| 0 <= j < sep_pos(s, sep) implies s[j] != sep by {
            if j > 0 {
                assert(s.drop_first()[j - 1] == s[j]);
                assert(s.drop_first()[j - 1] != sep);
            }
        }
    }
}

/// `sep_pos` is pinned by its characterization: if every byte before `k`
/// differs from `sep` and the byte at `k` (when `k` is in range) is `sep`,
/// then `sep_pos` is `k`.
pub proof fn lemma_sep_pos_is(s: Seq<u8>, sep: u8, k: nat)
    requires
        k <= s.len(),
        k < s.len() ==> s[k as int] == sep,
        k == s.len() ==> !s.contains(sep),
        forall|j: int| 0 <= j < k ==> s[j] != sep,
    ensures
        sep_pos(s, sep) == k,
    decreases s.len(),
{
    if s.len() == 0 {
    } else if s[0] == sep {
        assert(k == 0);
    } else {
        if k == s.len() && s.drop_first().contains(sep) {
            let w = choose|w: int| 0 <= w < s.drop_first().len() && s.drop_first()[w] == sep;
            assert(s[w + 1] == sep);
        }
        lemma_sep_pos_is(s.drop_first(), sep, (k - 1) as nat);
    }
}

/// Split `s` at every occurrence of `sep`: always one part more than there
/// are separators, so splitting an empty sequence gives one empty part.
pub open spec fn split_seq(s: Seq<u8>, sep: u8) -> Seq<Seq<u8>>
    decreases s.len(),
{
    let p = sep_pos(s, sep);
    if p >= s.len() {
        seq![s]
    } else {
        seq![s.take(p as int)] + split_seq(s.skip(p as int + 1), sep)
    }
}

/// Join parts with a single `sep` between consecutive parts.
pub open spec fn join_seq(parts: Seq<Seq<u8>>, sep: u8) -> Seq<u8>
    decreases parts.len(),
{
    if parts.len() == 0 {
        Seq::empty()
    } else if parts.len() == 1 {
        parts[0]
    } else {
        parts[0] + seq![sep] + join_seq(parts.drop_first(), sep)
    }
}

/// Splitting a sequence that has no separator yields that one part.
pub proof fn lemma_split_clean(s: Seq<u8>, sep: u8)
    requires
        !s.contains(sep),
    ensures
        split_seq(s, sep) == seq![s],
{
    assert forall|j: int| 0 <= j < s.len() implies s[j] != sep by {
        assert(!s.contains(sep));
    }
    lemma_sep_pos_is(s, sep, s.len());
}

/// Splitting after a clean prefix and one separator splits off exactly that
/// prefix.
pub proof fn lemma_split_prefix(a: Seq<u8>, b: Seq<u8>, sep: u8)
    requires
        !a.contains(sep),
    ensures
        split_seq(a + seq![sep] + b, sep) == seq![a] + split_seq(b, sep),
{
    let s = a + seq![sep] + b;
    assert forall|j: int| 0 <= j < a.len() implies s[j] != sep by {
        assert(s[j] == a[j]);
        assert(!a.contains(sep));
    }
    assert(s[a.len() as int] == sep);
    lemma_sep_pos_is(s, sep, a.len());
    assert(s.take(a.len() as int) =~= a);
    assert(s.skip(a.len() as int + 1) =~= b);
}

/// Splitting a join gives the parts back, provided no part holds the
/// separator.
pub proof fn lemma_split_join(parts: Seq<Seq<u8>>, sep: u8)
    requires
        parts.len() > 0,
        forall|i: int| 0 <= i < parts.len() ==> !(#[trigger] parts[i]).contains(sep),
    ensures
        split_seq(join_seq(parts, sep), sep) == parts,
    decreases parts.len(),
{
    if parts.len() == 1 {
        lemma_split_clean(parts[0], sep);
        assert(split_seq(join_seq(parts, sep), sep) =~= parts);
    } else {
        let rest = parts.drop_first();
        assert(forall|i: int| 0 <= i < rest.len() ==> rest[i] == parts[i + 1]);
        lemma_split_join(rest, sep);
        lemma_split_prefix(parts[0], join_seq(rest, sep), sep);
        assert(split_seq(join_seq(parts, sep), sep) =~= parts);
    }
}

/// Concatenate every part with a terminating `sep` after it.
pub open spec fn terminated(parts: Seq<Seq<u8>>, sep: u8) -> Seq<u8>
    decreases parts.len(),
{
    if parts.len() == 0 {
        Seq::empty()
    } else {
        parts[0] + seq![sep] + terminated(parts.drop_first(), sep)
    }
}

/// Terminating one more part appends it and its separator at the back.
pub proof fn lemma_terminated_push(parts: Seq<Seq<u8>>, x: Seq<u8>, sep: u8)
    ensures
        terminated(parts.push(x), sep) == terminated(parts, sep) + x + seq![sep],
    decreases parts.len(),
{
    if parts.len() == 0 {
        assert(parts.push(x).drop_first() =~= Seq::<Seq<u8>>::empty());
        assert(terminated(Seq::<Seq<u8>>::empty(), sep) == Seq::<u8>::empty());
        assert(parts.push(x)[0] == x);
        assert(terminated(parts.push(x), sep) =~= terminated(parts, sep) + x + seq![sep]);
    } else {
        assert(parts.push(x).drop_first() =~= parts.drop_first().push(x));
        lemma_terminated_push(parts.drop_first(), x, sep);
        assert(terminated(parts.push(x), sep) == parts[0] + seq![sep] + terminated(
            parts.drop_first().push(x),
            sep,
        )) by {
            assert(parts.push(x)[0] == parts[0]);
        }
        assert(terminated(parts.push(x), sep) =~= terminated(parts, sep) + x + seq![sep]);
    }
}

/// A sequence of terminated parts is the join of those parts with one empty
/// part appended.
pub proof fn lemma_terminated_is_join(parts: Seq<Seq<u8>>, sep: u8)
    ensures
        terminated(parts, sep) == join_seq(parts.push(Seq::empty()), sep),
    decreases parts.len(),
{
    if parts.len() == 0 {
        assert(join_seq(parts.push(Seq::empty()), sep) =~= terminated(parts, sep));
    } else {
        lemma_terminated_is_join(parts.drop_first(), sep);
        assert(parts.push(Seq::<u8>::empty()).drop_first() =~= parts.drop_first().push(
            Seq::empty(),
        ));
        assert(terminated(parts, sep) =~= join_seq(parts.push(Seq::empty()), sep));
    }
}

/// Split a byte sequence at every occurrence of `sep`.
pub fn split_bytes(s: &Vec<u8>, sep: u8) -> (r: Vec<Vec<u8>>)
    ensures
        r@.map_values(|v: Vec<u8>| v@) == split_seq(s@, sep),
{
    let n = s.len();
    let mut r: Vec<Vec<u8>> = Vec::new();
    let mut cur: Vec<u8> = Vec::new();
    let ghost mut start: int = 0;
    let mut i: usize = 0;
    proof {
        assert(s@.skip(0) =~= s@);
        assert(s@.subrange(0, 0) =~= Seq::<u8>::empty());
        assert(r@.map_values(|v: Vec<u8>| v@) =~= Seq::<Seq<u8>>::empty());
    }
    while i < n
        invariant
            0 <= start <= i <= n,
            n == s@.len(),
            cur@ == s@.subrange(start, i as int),
            !s@.subrange(start, i as int).contains(sep),
            split_seq(s@, sep) == r@.map_values(|v: Vec<u8>| v@) + split_seq(
                s@.skip(start),
                sep,
            ),
        decreases n - i,
    {
        let b = s[i];
        if b == sep {
            let ghost pre = r@;
            let ghost tok = s@.subrange(start, i as int);
            r.push(cur);
            cur = Vec::new();
            proof {
                assert(s@.skip(start) =~= tok + seq![sep] + s@.skip(i as int + 1));
                lemma_split_prefix(tok, s@.skip(i as int + 1), sep);
                assert(r@.map_values(|v: Vec<u8>| v@) =~= pre.map_values(|v: Vec<u8>| v@).push(
                    tok,
                ));
                assert(s@.subrange(i as int + 1, i as int + 1) =~= Seq::<u8>::empty());
            }
            proof {
                start = i as int + 1;
            }
        } else {
            cur.push(b);
            proof {
                let ext = s@.subrange(start, i as int + 1);
                assert(ext =~= s@.subrange(start, i as int).push(b));
                if ext.contains(sep) {
                    let w = choose|w: int| 0 <= w < ext.len() && ext[w] == sep;
                    if w < i - start {
                        assert(s@.subrange(start, i as int)[w] == sep);
                    } else {
                        assert(ext[w] == b);
                    }
                }
            }
        }
        i = i + 1;
    }
    let ghost pre = r@;
    r.push(cur);
    proof {
        lemma_split_clean(s@.subrange(start, n as int), sep);
        assert(s@.skip(start) =~= s@.subrange(start, n as int));
        assert(r@.map_values(|v: Vec<u8>| v@) =~= pre.map_values(|v: Vec<u8>| v@).push(cur@));
        assert(r@.map_values(|v: Vec<u8>| v@) =~= split_seq(s@, sep));
    }
    r
}

/// Joining one more part appends a separator (unless the join was empty so
/// far) and the part.
pub proof fn lemma_join_push(parts: Seq<Seq<u8>>, x: Seq<u8>, sep: u8)
    ensures
        join_seq(parts.push(x), sep) == if parts.len() == 0 {
            x
        } else {
            join_seq(parts, sep) + seq![sep] + x
        },
    decreases parts.len(),
{
    if parts.len() == 0 {
        assert(parts.push(x)[0] == x);
    } else if parts.len() == 1 {
        assert(parts.push(x).drop_first() =~= seq![x]);
        assert(join_seq(seq![x], sep) == x);
        assert(parts.push(x)[0] == parts[0]);
        assert(join_seq(parts.push(x), sep) =~= join_seq(parts, sep) + seq![sep] + x);
    } else {
        assert(parts.push(x).drop_first() =~= parts.drop_first().push(x));
        lemma_join_push(parts.drop_first(), x, sep);
        assert(parts.push(x)[0] == parts[0]);
        assert(join_seq(parts.push(x), sep) =~= join_seq(parts, sep) + seq![sep] + x);
    }
}

/// Copy a byte vector.
pub fn copy_bytes(s: &Vec<u8>) -> (r: Vec<u8>)
    ensures
        r@ == s@,
{
    let n = s.len();
    let mut r: Vec<u8> = Vec::new();
    let mut i: usize = 0;
    while i < n
        invariant
            0 <= i <= n,
            n == s@.len(),
            r@ == s@.take(i as int),
        decreases n - i,
    {
        r.push(s[i]);
        proof {
            assert(s@.take(i as int + 1) =~= s@.take(i as int).push(s@[i as int]));
        }
        i = i + 1;
    }
    proof {
        assert(s@.take(n as int) =~= s@);
    }
    r
}

/// Append a copy of `src` at the back of `dst`.
pub fn append_bytes(dst: &mut Vec<u8>, src: &Vec<u8>)
    ensures
        final(dst)@ == old(dst)@ + src@,
{
    let n = src.len();
    let mut i: usize = 0;
    while i < n
        invariant
            0 <= i <= n,
            n == src@.len(),
            dst@ == old(dst)@ + src@.take(i as int),
        decreases n - i,
    {
        dst.push(src[i]);
        proof {
            assert(old(dst)@ + src@.take(i as int + 1) =~= (old(dst)@ + src@.take(i as int)).push(
                src@[i as int],
            ));
        }
        i = i + 1;
    }
    proof {
        assert(src@.take(n as int) =~= src@);
    }
}

/// Whether `s` holds the byte `b`.
pub fn contains_byte(s: &Vec<u8>, b: u8) -> (r: bool)
    ensures
        r == s@.contains(b),
{
    let n = s.len();
    let mut i: usize = 0;
    while i < n
        invariant
            0 <= i <= n,
            n == s@.len(),
            forall|j: int| 0 <= j < i ==> s@[j] != b,
        decreases n - i,
    {
        if s[i] == b {
            return true;
        }
        i = i + 1;
    }
    false
}

/// Join parts with a single `sep` between consecutive parts.
pub fn join_bytes(parts: &Vec<Vec<u8>>, sep: u8) -> (r: Vec<u8>)
    ensures
        r@ == join_seq(parts@.map_values(|v: Vec<u8>| v@), sep),
{
    let ghost pv = parts@.map_values(|v: Vec<u8>| v@);
    let n = parts.len();
    let mut r: Vec<u8> = Vec::new();
    let mut i: usize = 0;
    proof {
        assert(pv.take(0) =~= Seq::<Seq<u8>>::empty());
    }
    while i < n
        invariant
            0 <= i <= n,
            n == parts@.len(),
            pv == parts@.map_values(|v: Vec<u8>| v@),
            r@ == join_seq(pv.take(i as int), sep),
        decreases n - i,
    {
        if i > 0 {
            r.push(sep);
        }
        append_bytes(&mut r, &parts[i]);
        proof {
            assert(pv.take(i as int + 1) =~= pv.take(i as int).push(pv[i as int]));
            lemma_join_push(pv.take(i as int), pv[i as int], sep);
            assert(r@ =~= join_seq(pv.take(i as int + 1), sep));
        }
        i = i + 1;
    }
    proof {
        assert(pv.take(n as int) =~= pv);
    }
    r
}

/// Whether a byte is an ASCII decimal digit.
pub open spec fn is_digit(b: u8) -> bool {
    48 <= b <= 57
}

/// Whether every byte of `s` is an ASCII decimal digit.
pub open spec fn all_digits(s: Seq<u8>) -> bool {
    forall|i: int| 0 <= i < s.len() ==> is_digit(#[trigger] s[i])
}

/// The numeric value of a sequence of ASCII digits.
pub open spec fn digits_val(s: Seq<u8>) -> nat
    recommends
        all_digits(s),
    decreases s.len(),
{
    if s.len() == 0 {
        0
    } else {
        (digits_val(s.drop_last()) * 10 + (s.last() - 48)) as nat
    }
}

/// The shortest ASCII decimal numeral of `n`.
pub open spec fn print_nat(n: nat) -> Seq<u8>
    decreases n,
{
    if n < 10 {
        seq![(48 + n) as u8]
    } else {
        print_nat(n / 10).push((48 + n % 10) as u8)
    }
}

/// A printed numeral is nonempty and all digits.
pub proof fn lemma_print_nat_wf(n: nat)
    ensures
        print_nat(n).len() >= 1,
        all_digits(print_nat(n)),
    decreases n,
{
    if n >= 10 {
        lemma_print_nat_wf(n / 10);
        let p = print_nat(n / 10);
        assert forall|i: int| 0 <= i < p.push((48 + n % 10) as u8).len() implies is_digit(
            #[trigger] p.push((48 + n % 10) as u8)[i],
        ) by {
            if i < p.len() {
                assert(is_digit(p[i]));
            }
        }
    }
}

/// Reading a printed numeral back gives the number.
pub proof fn lemma_print_nat_val(n: nat)
    ensures
        digits_val(print_nat(n)) == n,
    decreases n,
{
    if n < 10 {
        let p = print_nat(n);
        assert(p == seq![(48 + n) as u8]);
        assert(p.drop_last() =~= Seq::<u8>::empty());
        assert(digits_val(Seq::<u8>::empty()) == 0);
        assert(p.last() == (48 + n) as u8);
        assert(digits_val(p) == ((48 + n) as u8 - 48) as nat);
    } else {
        lemma_print_nat_val(n / 10);
        let p = print_nat(n / 10).push((48 + n % 10) as u8);
        assert(p.drop_last() =~= print_nat(n / 10));
        assert(p.last() == (48 + n % 10) as u8);
        assert(digits_val(p) == (n / 10) * 10 + ((48 + n % 10) as u8 - 48));
        assert((n / 10) * 10 + n % 10 == n);
    }
}

/// A digit prefix never exceeds the whole numeral's value.
pub proof fn lemma_digits_val_prefix(s: Seq<u8>, j: int)
    requires
        all_digits(s),
        0 <= j <= s.len(),
    ensures
        digits_val(s.take(j)) <= digits_val(s),
    decreases s.len() - j,
{
    if j == s.len() {
        assert(s.take(j) =~= s);
    } else {
        assert(s.take(j + 1).drop_last() =~= s.take(j));
        assert(s.take(j + 1).last() == s[j]);
        assert(is_digit(s[j]));
        assert(digits_val(s.take(j + 1)) == digits_val(s.take(j)) * 10 + (s[j] - 48));
        lemma_digits_val_prefix(s, j + 1);
    }
}

/// The numeral that reads back as `n`, when `n` fits a u64: `None` on an
/// empty sequence, a non-digit byte, or a value beyond u64.
pub open spec fn parse_nat_spec(s: Seq<u8>) -> Option<u64> {
    if s.len() > 0 && all_digits(s) && digits_val(s) <= u64::MAX {
        Some(digits_val(s) as u64)
    } else {
        None
    }
}

/// The signed numeral: an optional leading minus or plus sign before the
/// digits.
pub open spec fn parse_int_spec(s: Seq<u8>) -> Option<int> {
    if s.len() >= 1 && (s[0] == 45 || s[0] == 43) {
        match parse_nat_spec(s.drop_first()) {
            Some(m) => Some(
                if s[0] == 45 {
                    -(m as int)
                } else {
                    m as int
                },
            ),
            None => None,
        }
    } else {
        match parse_nat_spec(s) {
            Some(m) => Some(m as int),
            None => None,
        }
    }
}

/// The shortest ASCII decimal numeral of `v`, with a minus sign when
/// negative.
pub open spec fn print_int(v: int) -> Seq<u8> {
    if v < 0 {
        seq![45u8] + print_nat((-v) as nat)
    } else {
        print_nat(v as nat)
    }
}

/// Every byte of a printed signed numeral is a digit or the minus sign.
pub proof fn lemma_print_int_bytes(v: int)
    ensures
        print_int(v).len() >= 1,
        forall|i: int|
            0 <= i < print_int(v).len() ==> (#[trigger] print_int(v)[i] == 45 || is_digit(
                print_int(v)[i],
            )),
{
    if v < 0 {
        lemma_print_nat_wf((-v) as nat);
        assert(forall|i: int|
            1 <= i < print_int(v).len() ==> print_int(v)[i] == print_nat((-v) as nat)[i - 1]);
    } else {
        lemma_print_nat_wf(v as nat);
    }
}

/// Reading a printed signed numeral back gives the number.
pub proof fn lemma_parse_print_int(v: int)
    requires
        -(u64::MAX as int) <= v <= u64::MAX as int,
    ensures
        parse_int_spec(print_int(v)) == Some(v),
{
    if v < 0 {
        let m = (-v) as nat;
        lemma_print_nat_wf(m);
        lemma_print_nat_val(m);
        let s = seq![45u8] + print_nat(m);
        assert(s[0] == 45);
        assert(s.drop_first() =~= print_nat(m));
        assert(parse_nat_spec(s.drop_first()) == Some(m as u64));
    } else {
        lemma_print_nat_wf(v as nat);
        lemma_print_nat_val(v as nat);
        let s = print_nat(v as nat);
        assert(is_digit(s[0]));
        assert(parse_nat_spec(s) == Some(v as u64));
    }
}

/// Print `n` as its shortest decimal numeral.
pub fn print_u64(n: u64) -> (r: Vec<u8>)
    ensures
        r@ == print_nat(n as nat),
    decreases n,
{
    if n < 10 {
        let mut v: Vec<u8> = Vec::new();
        v.push(48 + (n as u8));
        proof {
            assert(v@ =~= print_nat(n as nat));
        }
        v
    } else {
        let mut v = print_u64(n / 10);
        v.push(48 + ((n % 10) as u8));
        v
    }
}

/// Print `v` as its shortest decimal numeral, with a minus sign when
/// negative.
pub fn print_i64(v: i64) -> (r: Vec<u8>)
    ensures
        r@ == print_int(v as int),
{
    if v < 0 {
        let mut r: Vec<u8> = Vec::new();
        r.push(45);
        let m: u64 = if v == i64::MIN {
            9223372036854775808
        } else {
            (-v) as u64
        };
        let mut digits = print_u64(m);
        r.append(&mut digits);
        proof {
            assert(r@ =~= print_int(v as int));
        }
        r
    } else {
        print_u64(v as u64)
    }
}

/// Parse the decimal numeral in `s` from position `from` to the end.
pub fn parse_u64_from(s: &Vec<u8>, from: usize) -> (r: Option<u64>)
    requires
        from <= s@.len(),
    ensures
        r == parse_nat_spec(s@.skip(from as int)),
{
    let ghost t = s@.skip(from as int);
    let n = s.len();
    if from == n {
        return None;
    }
    let mut acc: u64 = 0;
    let mut i: usize = from;
    proof {
        assert(t.take(0) =~= Seq::<u8>::empty());
    }
    while i < n
        invariant
            from <= i <= n,
            n == s@.len(),
            t == s@.skip(from as int),
            forall|k: int| 0 <= k < i - from ==> is_digit(#[trigger] t[k]),
            acc == digits_val(t.take(i - from)),
        decreases n - i,
    {
        let b = s[i];
        proof {
            assert(t[i - from] == s@[i as int]);
        }
        if b < 48 || b > 57 {
            proof {
                assert(!is_digit(t[i - from]));
                assert(!all_digits(t));
            }
            return None;
        }
        let d: u64 = (b - 48) as u64;
        proof {
            assert(t.take(i - from + 1).drop_last() =~= t.take(i - from));
            assert(t.take(i - from + 1).last() == t[i - from]);
            assert(digits_val(t.take(i - from + 1)) == acc * 10 + d);
        }
        if acc > (u64::MAX - d) / 10 {
            proof {
                assert(acc * 10 + d > u64::MAX) by {
                    let q = (u64::MAX - d) / 10;
                    assert(q * 10 + ((u64::MAX - d) % 10) == u64::MAX - d);
                    assert(acc * 10 >= (q + 1) * 10);
                }
                if all_digits(t) {
                    lemma_digits_val_prefix(t, i - from + 1);
                }
            }
            return None;
        }
        proof {
            let q = (u64::MAX - d) / 10;
            assert(q * 10 + ((u64::MAX - d) % 10) == u64::MAX - d);
            assert(acc * 10 <= q * 10);
        }
        acc = acc * 10 + d;
        i = i + 1;
    }
    proof {
        assert(t.take(n - from) =~= t);
    }
    Some(acc)
}

/// Parse the optionally signed decimal numeral filling all of `s`, as an i64;
/// numbers outside the i64 range give `None`.
pub open spec fn parse_i64_spec(s: Seq<u8>) -> Option<i64> {
    match parse_int_spec(s) {
        Some(v) => if i64::MIN <= v <= i64::MAX {
            Some(v as i64)
        } else {
            None
        },
        None => None,
    }
}

/// Parse the optionally signed decimal numeral filling all of `s`.
pub fn parse_i64(s: &Vec<u8>) -> (r: Option<i64>)
    ensures
        r == parse_i64_spec(s@),
{
    if s.len() >= 1 && (s[0] == 45 || s[0] == 43) {
        let neg = s[0] == 45;
        proof {
            assert(s@.drop_first() =~= s@.skip(1));
        }
        match parse_u64_from(s, 1) {
            Some(m) => {
                if m <= 9223372036854775807u64 {
                    if neg {
                        Some(-(m as i64))
                    } else {
                        Some(m as i64)
                    }
                } else if neg && m == 9223372036854775808u64 {
                    Some(i64::MIN)
                } else {
                    None
                }
            },
            None => None,
        }
    } else {
        proof {
            assert(s@.skip(0) =~= s@);
        }
        match parse_u64_from(s, 0) {
            Some(m) => {
                if m <= 9223372036854775807u64 {
                    Some(m as i64)
                } else {
                    None
                }
            },
            None => None,
        }
    }
}

/// The ASCII lowercase of a byte.
pub open spec fn to_lower(b: u8) -> u8 {
    if 65 <= b <= 90 {
        (b + 32) as u8
    } else {
        b
    }
}

/// The ASCII lowercase of a byte sequence.
pub open spec fn lower_seq(s: Seq<u8>) -> Seq<u8> {
    s.map_values(|b: u8| to_lower(b))
}

/// Fold a token to ASCII lowercase.
pub fn lower_bytes(s: &Vec<u8>) -> (r: Vec<u8>)
    ensures
        r@ == lower_seq(s@),
{
    let n = s.len();
    let mut r: Vec<u8> = Vec::new();
    let mut i: usize = 0;
    while i < n
        invariant
            0 <= i <= n,
            n == s@.len(),
            r@ == lower_seq(s@.take(i as int)),
        decreases n - i,
    {
        let b = s[i];
        let l: u8 = if b >= 65 && b <= 90 {
            b + 32
        } else {
            b
        };
        r.push(l);
        proof {
            assert(lower_seq(s@.take(i as int + 1)) =~= lower_seq(s@.take(i as int)).push(
                to_lower(s@[i as int]),
            ));
        }
        i = i + 1;
    }
    proof {
        assert(s@.take(n as int) =~= s@);
    }
    r
}

/// The bytes of a string's characters, each truncated to a byte; exact for
/// ASCII text.
pub open spec fn str_bytes(s: Seq<char>) -> Seq<u8> {
    s.map_values(|c: char| c as u8)
}

/// Whether a token equals the bytes of a keyword.
pub fn token_is(t: &Vec<u8>, kw: &str) -> (r: bool)
    ensures
        r == (t@ == str_bytes(kw@)),
{
    let n = kw.unicode_len();
    if t.len() != n {
        return false;
    }
    let mut i: usize = 0;
    while i < n
        invariant
            0 <= i <= n,
            n == kw@.len(),
            n == t@.len(),
            forall|j: int| 0 <= j < i ==> t@[j] == str_bytes(kw@)[j],
        decreases n - i,
    {
        let c = kw.get_char(i);
        if t[i] != (c as u8) {
            proof {
                assert(str_bytes(kw@)[i as int] == (kw@[i as int] as u8));
            }
            return false;
        }
        i = i + 1;
    }
    proof {
        assert(t@ =~= str_bytes(kw@));
    }
    true
}

/// Append the bytes of a string's characters; exact for ASCII text.
pub fn push_str_bytes(v: &mut Vec<u8>, s: &str)
    ensures
        final(v)@ == old(v)@ + str_bytes(s@),
{
    let n = s.unicode_len();
    let mut i: usize = 0;
    while i < n
        invariant
            0 <= i <= n,
            n == s@.len(),
            v@ == old(v)@ + str_bytes(s@.take(i as int)),
        decreases n - i,
    {
        let c = s.get_char(i);
        v.push(c as u8);
        proof {
            assert(str_bytes(s@.take(i as int + 1)) =~= str_bytes(s@.take(i as int)).push(
                s@[i as int] as u8,
            ));
            assert(v@ =~= old(v)@ + str_bytes(s@.take(i as int + 1)));
        }
        i = i + 1;
    }
    proof {
        assert(s@.take(n as int) =~= s@);
    }
}

} // verus!
