//! The wire codec's round-trip law: parsing the serialized text of any
//! well-formed Order yields that Order back, exactly. The supporting lemmas
//! walk the parser over the canonical text one token at a time.

use vstd::prelude::*;
use crate::codec::{has_lit_at, is_ws, json_of, json_of_details, json_of_measurement, spec_details_members, spec_expect, spec_measurement_members, spec_member_name, spec_order_members, spec_parse_details, spec_parse_measurement, spec_parse_order, spec_parse_order_at, spec_scan_str, spec_scan_uint, spec_skip_ws, spec_str_end, spec_strval, ParseError};
use crate::flatten::{flat_of, lemma_flatten_rejoin, rejoin};
use crate::order::{plain, plain_char, MeasurementsView, OrderDetailsView, OrderView};
use crate::text::{dec, digit_run, digits_val, is_digit, lemma_dec_digits, lemma_dec_len, lemma_dec_no_leading_zero, lemma_dec_val, lemma_digit_run_of, lemma_pow10_20, pow10};

verus! {

/// Is every character of `w` insignificant whitespace?
pub open spec fn all_ws(w: Seq<char>) -> bool {
    forall|k: int| 0 <= k < w.len() ==> is_ws(w[k])
}

/// Indexing into a three-piece decomposition of `s`.
proof fn lemma_split_index(a: Seq<char>, x: Seq<char>, b: Seq<char>, s: Seq<char>)
    requires
        s == a + x + b,
    ensures
        s.len() == a.len() as int + x.len() + b.len(),
        forall|k: int| 0 <= k < x.len() ==> s[a.len() + k] == #[trigger] x[k],
        forall|k: int| 0 <= k < b.len() ==> s[a.len() + x.len() + k] == #[trigger] b[k],
{
    assert forall|k: int| 0 <= k < x.len() implies s[a.len() + k] == #[trigger] x[k] by {
        assert(s[a.len() + k] == (a + x + b)[a.len() + k]);
    }
    assert forall|k: int| 0 <= k < b.len() implies s[a.len() + x.len() + k] == #[trigger] b[k] by {
        assert(s[a.len() + x.len() + k] == (a + x + b)[a.len() + x.len() + k]);
    }
}

/// Whitespace skipping runs to exactly the first non-whitespace position.
proof fn lemma_skip_ws_to(s: Seq<char>, i: int, j: int)
    requires
        0 <= i <= j <= s.len(),
        forall|k: int| i <= k < j ==> is_ws(#[trigger] s[k]),
        j == s.len() || !is_ws(s[j]),
    ensures
        spec_skip_ws(s, i) == j,
    decreases j - i,
{
    if i < j {
        assert(is_ws(s[i]));
        lemma_skip_ws_to(s, i + 1, j);
    }
}

/// A literal standing at `i` is consumed to just past itself.
proof fn lemma_expect_at(s: Seq<char>, i: int, lit: Seq<char>)
    requires
        0 <= i,
        i + lit.len() <= s.len(),
        forall|k: int| 0 <= k < lit.len() ==> s[i + k] == #[trigger] lit[k],
    ensures
        spec_expect(s, i, lit) == Some(i + lit.len() as int),
{
    assert(has_lit_at(s, i, lit));
}

/// The closing-quote search stops exactly at the quote ending a plain run.
proof fn lemma_str_end_to(s: Seq<char>, i: int, j: int)
    requires
        0 <= i <= j < s.len(),
        s[j] == '"',
        forall|k: int| i <= k < j ==> plain_char(#[trigger] s[k]),
    ensures
        spec_str_end(s, i) == Some(j),
    decreases j - i,
{
    if i < j {
        assert(plain_char(s[i]));
        lemma_str_end_to(s, i + 1, j);
    }
}

/// A decimal rendering standing at `i`, followed by a non-digit, scans back
/// to the number it renders.
proof fn lemma_scan_uint_at(s: Seq<char>, i: int, n: nat, j: int)
    requires
        0 <= i,
        j == i + dec(n).len(),
        j <= s.len(),
        forall|k: int| 0 <= k < dec(n).len() ==> s[i + k] == #[trigger] dec(n)[k],
        j == s.len() || !is_digit(s[j]),
        n <= usize::MAX,
    ensures
        spec_scan_uint(s, i) == Some((n, j)),
{
    lemma_dec_digits(n);
    assert(s[i] == dec(n)[0]);
    assert(is_digit(s[i]));
    if n == 0 {
        assert(dec(0) =~= seq!['0']);
        assert(s[i] == '0');
        assert(j == i + 1);
    } else {
        lemma_dec_no_leading_zero(n);
        assert(s[i] != '0');
        assert forall|k: int| i <= k < j implies is_digit(#[trigger] s[k]) by {
            assert(s[k] == dec(n)[k - i]);
        }
        lemma_digit_run_of(s, i, j);
        assert(digit_run(s, i) == dec(n).len());
        lemma_pow10_20();
        assert(usize::MAX as nat <= 0xffffffffffffffff);
        lemma_dec_len(n, 20);
        assert(s.subrange(i, j) =~= dec(n));
        lemma_dec_val(n);
    }
}

/// A quoted member name with its colon and following space, standing at
/// `a3`, is consumed up to the start of its value.
#[verifier::rlimit(100)]
proof fn lemma_name_colon_at(s: Seq<char>, a3: Seq<char>, name: Seq<char>, b: Seq<char>)
    requires
        plain(name),
        b.len() > 0,
        !is_ws(b[0]),
        s == a3 + seq!['"'] + name + seq!['"'] + seq![':'] + seq![' '] + b,
    ensures
        spec_expect(s, a3.len() as int, seq!['"']) == Some(a3.len() as int + 1),
        spec_scan_str(s, a3.len() as int + 1) == Some(
            (name, a3.len() as int + name.len() + 2),
        ),
        spec_skip_ws(s, a3.len() as int + name.len() + 2) == a3.len() as int + name.len() + 2,
        spec_expect(s, a3.len() as int + name.len() + 2, seq![':']) == Some(
            a3.len() as int + name.len() + 3,
        ),
        spec_skip_ws(s, a3.len() as int + name.len() + 3) == s.len() - b.len(),
{
    let i2 = a3.len() as int;
    assert(s =~= a3 + seq!['"'] + (name + seq!['"'] + seq![':'] + seq![' '] + b));
    lemma_split_index(a3, seq!['"'], name + seq!['"'] + seq![':'] + seq![' '] + b, s);
    lemma_expect_at(s, i2, seq!['"']);
    let i3 = i2 + 1;
    let a4 = a3 + seq!['"'];
    assert(s =~= a4 + name + (seq!['"'] + seq![':'] + seq![' '] + b));
    lemma_split_index(a4, name, seq!['"'] + seq![':'] + seq![' '] + b, s);
    let i4 = i3 + name.len() as int;
    assert(s[i4] == '"') by {
        let a5 = a4 + name;
        assert(s =~= a5 + seq!['"'] + (seq![':'] + seq![' '] + b));
        lemma_split_index(a5, seq!['"'], seq![':'] + seq![' '] + b, s);
    }
    assert forall|k: int| i3 <= k < i4 implies plain_char(#[trigger] s[k]) by {
        assert(s[i3 + (k - i3)] == name[k - i3]);
    }
    lemma_str_end_to(s, i3, i4);
    assert(s.subrange(i3, i4) =~= name);
    let j4 = i4 + 1;
    let a6 = a4 + name + seq!['"'];
    assert(s =~= a6 + seq![':'] + (seq![' '] + b));
    lemma_split_index(a6, seq![':'], seq![' '] + b, s);
    assert(s[j4] == ':');
    lemma_skip_ws_to(s, j4, j4);
    lemma_expect_at(s, j4, seq![':']);
    let j6 = j4 + 1;
    let a7 = a6 + seq![':'];
    assert(s =~= a7 + seq![' '] + b);
    lemma_split_index(a7, seq![' '], b, s);
    assert(s[j6] == ' ');
    assert(s[j6 + 1] == b[0]);
    lemma_skip_ws_to(s, j6, j6 + 1);
    assert(j6 + 1 == s.len() - b.len());
}

/// A member's lead-in standing canonically in `s` — optional comma,
/// whitespace, the quoted member name, a colon, one space — is consumed up
/// to the start of its value, and the loop's close-check does not fire here.
#[verifier::rlimit(100)]
proof fn lemma_member_name_rt(
    s: Seq<char>,
    a: Seq<char>,
    first: bool,
    w: Seq<char>,
    name: Seq<char>,
    b: Seq<char>,
)
    requires
        all_ws(w),
        plain(name),
        b.len() > 0,
        !is_ws(b[0]),
        first ==> s == a + w + seq!['"'] + name + seq!['"'] + seq![':'] + seq![' '] + b,
        !first ==> s == a + seq![','] + w + seq!['"'] + name + seq!['"'] + seq![':'] + seq![' ']
            + b,
    ensures
        spec_member_name(s, a.len() as int, first) == Some((name, s.len() - b.len())),
        spec_expect(s, spec_skip_ws(s, a.len() as int), seq!['}']) is None,
{
    let i0 = a.len() as int;
    let a1: Seq<char> = if first {
        a
    } else {
        a + seq![',']
    };
    let i1 = a1.len() as int;
    if !first {
        assert(s =~= a + seq![','] + (w + seq!['"'] + name + seq!['"'] + seq![':'] + seq![' ']
            + b));
        lemma_split_index(a, seq![','], w + seq!['"'] + name + seq!['"'] + seq![':'] + seq![' ']
            + b, s);
        assert(s[i0] == ',');
        lemma_skip_ws_to(s, i0, i0);
        lemma_expect_at(s, i0, seq![',']);
    }
    // the whitespace run, ending at the name's opening quote
    let rest2 = seq!['"'] + name + seq!['"'] + seq![':'] + seq![' '] + b;
    assert(s =~= a1 + w + rest2);
    lemma_split_index(a1, w, rest2, s);
    let i2 = i1 + w.len() as int;
    assert(s[i2] == '"');
    assert forall|k: int| i1 <= k < i2 implies is_ws(#[trigger] s[k]) by {
        assert(s[i1 + (k - i1)] == w[k - i1]);
    }
    lemma_skip_ws_to(s, i1, i2);
    lemma_skip_ws_to(s, i2, i2);
    // the name, colon and space
    let a3 = a1 + w;
    assert(s =~= a3 + seq!['"'] + name + seq!['"'] + seq![':'] + seq![' '] + b);
    lemma_name_colon_at(s, a3, name, b);
    // the close-check sees a comma or quote, never a brace
    let p = spec_skip_ws(s, i0);
    assert(s[p] != '}');
    assert(spec_expect(s, p, seq!['}']) is None) by {
        if has_lit_at(s, p, seq!['}']) {
            assert(s[p + 0] == seq!['}'][0]);
        }
    }
}

/// A quoted plain value standing at `a6` scans to exactly its content.
#[verifier::rlimit(100)]
proof fn lemma_str_value_at(s: Seq<char>, a6: Seq<char>, f: Seq<char>, b: Seq<char>)
    requires
        plain(f),
        s == a6 + seq!['"'] + f + seq!['"'] + b,
    ensures
        spec_expect(s, a6.len() as int, seq!['"']) == Some(a6.len() as int + 1),
        spec_scan_str(s, a6.len() as int + 1) == Some((f, s.len() - b.len())),
{
    let i5 = a6.len() as int;
    // the opening quote
    assert(s =~= a6 + seq!['"'] + (f + seq!['"'] + b));
    lemma_split_index(a6, seq!['"'], f + seq!['"'] + b, s);
    lemma_expect_at(s, i5, seq!['"']);
    let i6 = i5 + 1;
    // the value and its closing quote
    let a7 = a6 + seq!['"'];
    assert(s =~= a7 + f + (seq!['"'] + b));
    lemma_split_index(a7, f, seq!['"'] + b, s);
    let i7 = i6 + f.len() as int;
    assert(s[i7] == '"') by {
        let a8 = a7 + f;
        assert(s =~= a8 + seq!['"'] + b);
        lemma_split_index(a8, seq!['"'], b, s);
    }
    assert forall|k: int| i6 <= k < i7 implies plain_char(#[trigger] s[k]) by {
        assert(s[i6 + (k - i6)] == f[k - i6]);
    }
    lemma_str_end_to(s, i6, i7);
    assert(s.subrange(i6, i7) =~= f);
    assert(spec_scan_str(s, i6) == Some((f, i7 + 1)));
    assert(i7 + 1 == s.len() - b.len());
}

/// A string member standing canonically in `s`: its lead-in yields its
/// name, and its quoted value scans to exactly its content.
#[verifier::rlimit(100)]
proof fn lemma_str_member_iter(
    s: Seq<char>,
    a: Seq<char>,
    first: bool,
    w: Seq<char>,
    name: Seq<char>,
    f: Seq<char>,
    b: Seq<char>,
)
    requires
        all_ws(w),
        plain(name),
        plain(f),
        first ==> s == a + w + seq!['"'] + name + seq!['"'] + seq![':'] + seq![' '] + seq!['"'] + f
            + seq!['"'] + b,
        !first ==> s == a + seq![','] + w + seq!['"'] + name + seq!['"'] + seq![':'] + seq![' ']
            + seq!['"'] + f + seq!['"'] + b,
    ensures
        spec_member_name(s, a.len() as int, first) == Some(
            (name, s.len() - b.len() - f.len() - 2),
        ),
        spec_strval(s, s.len() - b.len() - f.len() - 2) == Some((f, s.len() - b.len())),
        spec_expect(s, spec_skip_ws(s, a.len() as int), seq!['}']) is None,
{
    let vb = seq!['"'] + f + seq!['"'] + b;
    let a6: Seq<char> = if first {
        a + w + seq!['"'] + name + seq!['"'] + seq![':'] + seq![' ']
    } else {
        a + seq![','] + w + seq!['"'] + name + seq!['"'] + seq![':'] + seq![' ']
    };
    if first {
        assert(s =~= a + w + seq!['"'] + name + seq!['"'] + seq![':'] + seq![' '] + vb);
    } else {
        assert(s =~= a + seq![','] + w + seq!['"'] + name + seq!['"'] + seq![':'] + seq![' ']
            + vb);
    }
    assert(vb[0] == '"');
    lemma_member_name_rt(s, a, first, w, name, vb);
    assert(a6.len() == s.len() - vb.len());
    assert(s =~= a6 + seq!['"'] + f + seq!['"'] + b);
    lemma_str_value_at(s, a6, f, b);
}

/// A numeric member standing canonically in `s`: its lead-in yields its
/// name, and its decimal value scans to exactly the number it renders.
#[verifier::rlimit(100)]
proof fn lemma_uint_member_iter(
    s: Seq<char>,
    a: Seq<char>,
    first: bool,
    w: Seq<char>,
    name: Seq<char>,
    n: nat,
    b: Seq<char>,
)
    requires
        all_ws(w),
        plain(name),
        n <= usize::MAX,
        b.len() > 0,
        !is_digit(b[0]),
        first ==> s == a + w + seq!['"'] + name + seq!['"'] + seq![':'] + seq![' '] + dec(n) + b,
        !first ==> s == a + seq![','] + w + seq!['"'] + name + seq!['"'] + seq![':'] + seq![' ']
            + dec(n) + b,
    ensures
        spec_member_name(s, a.len() as int, first) == Some(
            (name, s.len() - b.len() - dec(n).len()),
        ),
        spec_scan_uint(s, s.len() - b.len() - dec(n).len()) == Some((n, s.len() - b.len())),
        spec_expect(s, spec_skip_ws(s, a.len() as int), seq!['}']) is None,
{
    let vb = dec(n) + b;
    let a6: Seq<char> = if first {
        a + w + seq!['"'] + name + seq!['"'] + seq![':'] + seq![' ']
    } else {
        a + seq![','] + w + seq!['"'] + name + seq!['"'] + seq![':'] + seq![' ']
    };
    if first {
        assert(s =~= a + w + seq!['"'] + name + seq!['"'] + seq![':'] + seq![' '] + vb);
    } else {
        assert(s =~= a + seq![','] + w + seq!['"'] + name + seq!['"'] + seq![':'] + seq![' ']
            + vb);
    }
    lemma_dec_digits(n);
    assert(vb[0] == dec(n)[0]);
    assert(is_digit(vb[0]));
    assert(!is_ws(vb[0]));
    lemma_member_name_rt(s, a, first, w, name, vb);
    let i5 = s.len() - vb.len();
    assert(a6.len() == i5);
    assert(s =~= a6 + dec(n) + b);
    lemma_split_index(a6, dec(n), b, s);
    let j = i5 + dec(n).len() as int;
    assert(s[j] == b[0]);
    lemma_scan_uint_at(s, i5, n, j);
}

/// The measurement object's fixed text, split into its tokens.
proof fn lemma_atoms_measurement()
    ensures
        "{\n      \"length\": "@ == seq!['{'] + "\n      "@ + seq!['"'] + "length"@ + seq!['"']
            + seq![':'] + seq![' '],
        ",\n      \"breadth\": "@ == seq![','] + "\n      "@ + seq!['"'] + "breadth"@
            + seq!['"'] + seq![':'] + seq![' '],
        "\n    }"@ == "\n    "@ + seq!['}'],
        all_ws("\n      "@),
        all_ws("\n    "@),
        "\n      "@.len() == 7,
        "\n    "@.len() == 5,
        "\n    "@[0] == '\n',
        plain("length"@),
        plain("breadth"@),
        "length"@.len() == 6,
        "breadth"@.len() == 7,
        "breadth"@ != "length"@,
{
    reveal_strlit("{\n      \"length\": ");
    reveal_strlit(",\n      \"breadth\": ");
    reveal_strlit("\n    }");
    reveal_strlit("length");
    reveal_strlit("breadth");
    reveal_strlit("\n      ");
    reveal_strlit("\n    ");
    assert("{\n      \"length\": "@ =~= seq!['{'] + "\n      "@ + seq!['"'] + "length"@
        + seq!['"'] + seq![':'] + seq![' ']);
    assert(",\n      \"breadth\": "@ =~= seq![','] + "\n      "@ + seq!['"'] + "breadth"@
        + seq!['"'] + seq![':'] + seq![' ']);
    assert("\n    }"@ =~= "\n    "@ + seq!['}']);
}

/// The length member of a canonically placed measurement object.
#[verifier::rlimit(100)]
proof fn lemma_m_open_and_length(s: Seq<char>, a: Seq<char>, m: MeasurementsView, b: Seq<char>)
    requires
        s == a + json_of_measurement(m) + b,
        m.length <= usize::MAX,
    ensures
        spec_expect(s, a.len() as int, seq!['{']) == Some(a.len() as int + 1),
        spec_expect(s, spec_skip_ws(s, a.len() as int + 1), seq!['}']) is None,
        spec_member_name(s, a.len() as int + 1, true) == Some(("length"@, a.len() as int + 18)),
        spec_scan_uint(s, a.len() as int + 18) == Some(
            (m.length, a.len() as int + 18 + dec(m.length).len()),
        ),
{
    lemma_atoms_measurement();
    let w6 = "\n      "@;
    let tl = dec(m.length);
    let tb = dec(m.breadth);
    let a1 = a + seq!['{'];
    let b1 = seq![','] + w6 + seq!['"'] + "breadth"@ + seq!['"'] + seq![':'] + seq![' '] + tb
        + "\n    "@ + seq!['}'] + b;
    assert(s =~= a1 + w6 + seq!['"'] + "length"@ + seq!['"'] + seq![':'] + seq![' '] + tl + b1);
    let rest1 = w6 + seq!['"'] + "length"@ + seq!['"'] + seq![':'] + seq![' '] + tl + b1;
    assert(s =~= a + seq!['{'] + rest1);
    lemma_split_index(a, seq!['{'], rest1, s);
    lemma_expect_at(s, a.len() as int, seq!['{']);
    lemma_dec_digits(m.length);
    assert(b1[0] == ',');
    lemma_uint_member_iter(s, a1, true, w6, "length"@, m.length, b1);
    assert(s.len() - b1.len() - tl.len() == a.len() as int + 18);
}

/// The breadth member and closing brace of a canonically placed
/// measurement object.
#[verifier::rlimit(100)]
proof fn lemma_m_breadth_and_close(s: Seq<char>, a: Seq<char>, m: MeasurementsView, b: Seq<char>)
    requires
        s == a + json_of_measurement(m) + b,
        m.breadth <= usize::MAX,
    ensures
        spec_expect(
            s,
            spec_skip_ws(s, a.len() as int + 18 + dec(m.length).len()),
            seq!['}'],
        ) is None,
        spec_member_name(s, a.len() as int + 18 + dec(m.length).len(), false) == Some(
            ("breadth"@, a.len() as int + 37 + dec(m.length).len()),
        ),
        spec_scan_uint(s, a.len() as int + 37 + dec(m.length).len()) == Some(
            (m.breadth, a.len() as int + 37 + dec(m.length).len() + dec(m.breadth).len()),
        ),
        spec_skip_ws(s, a.len() as int + 37 + dec(m.length).len() + dec(m.breadth).len())
            == a.len() as int + 42 + dec(m.length).len() + dec(m.breadth).len(),
        spec_expect(
            s,
            a.len() as int + 42 + dec(m.length).len() + dec(m.breadth).len(),
            seq!['}'],
        ) == Some(a.len() as int + 43 + dec(m.length).len() + dec(m.breadth).len()),
        s.len() - b.len() == a.len() as int + 43 + dec(m.length).len() + dec(m.breadth).len(),
{
    lemma_atoms_measurement();
    let w6 = "\n      "@;
    let w4 = "\n    "@;
    let tl = dec(m.length);
    let tb = dec(m.breadth);
    let a2 = a + seq!['{'] + w6 + seq!['"'] + "length"@ + seq!['"'] + seq![':'] + seq![' '] + tl;
    let b2 = w4 + seq!['}'] + b;
    assert(s =~= a2 + seq![','] + w6 + seq!['"'] + "breadth"@ + seq!['"'] + seq![':'] + seq![' ']
        + tb + b2);
    assert(b2[0] == w4[0]);
    assert(b2[0] == '\n');
    lemma_uint_member_iter(s, a2, false, w6, "breadth"@, m.breadth, b2);
    assert(a2.len() == a.len() as int + 18 + tl.len());
    assert(s.len() - b2.len() - tb.len() == a.len() as int + 37 + tl.len());
    let a3 = a2 + seq![','] + w6 + seq!['"'] + "breadth"@ + seq!['"'] + seq![':'] + seq![' '] + tb;
    assert(s =~= a3 + w4 + (seq!['}'] + b));
    lemma_object_close(s, a3, w4, b);
    assert(a3.len() == a.len() as int + 37 + tl.len() + tb.len());
}

/// A measurement object standing canonically in `s` parses to exactly its
/// two values.
#[verifier::rlimit(100)]
proof fn lemma_measurement_rt(s: Seq<char>, a: Seq<char>, m: MeasurementsView, b: Seq<char>)
    requires
        s == a + json_of_measurement(m) + b,
        m.length <= usize::MAX,
        m.breadth <= usize::MAX,
    ensures
        spec_parse_measurement(s, a.len() as int) == Ok::<_, ParseError>((m, s.len() - b.len())),
{
    lemma_atoms_measurement();
    lemma_m_open_and_length(s, a, m, b);
    lemma_m_breadth_and_close(s, a, m, b);
    let i0 = a.len() as int;
    let e1 = i0 + 18 + dec(m.length).len();
    let e2 = e1 + 19 + dec(m.breadth).len();
    assert(e2 == i0 + 37 + dec(m.length).len() + dec(m.breadth).len());
    assert(spec_measurement_members(s, i0 + 1, true, None, None, 3) == spec_measurement_members(
        s,
        e1,
        false,
        Some(m.length),
        None,
        2,
    ));
    assert(spec_measurement_members(s, e1, false, Some(m.length), None, 2)
        == spec_measurement_members(s, e2, false, Some(m.length), Some(m.breadth), 1));
    assert(spec_measurement_members(s, e2, false, Some(m.length), Some(m.breadth), 1) == Ok::<
        _,
        ParseError,
    >((MeasurementsView { length: m.length, breadth: m.breadth }, s.len() - b.len())));
    assert(MeasurementsView { length: m.length, breadth: m.breadth } == m);
}

/// The details object's fixed text, split into its tokens.
proof fn lemma_atoms_details()
    ensures
        "{\n    \"clothingtype\": \""@ == seq!['{'] + "\n    "@ + seq!['"'] + "clothingtype"@
            + seq!['"'] + seq![':'] + seq![' '] + seq!['"'],
        "\",\n    \"quantity\": \""@ == seq!['"'] + seq![','] + "\n    "@ + seq!['"']
            + "quantity"@ + seq!['"'] + seq![':'] + seq![' '] + seq!['"'],
        "\",\n    \"measurement\": "@ == seq!['"'] + seq![','] + "\n    "@ + seq!['"']
            + "measurement"@ + seq!['"'] + seq![':'] + seq![' '],
        "\n  }"@ == "\n  "@ + seq!['}'],
        all_ws("\n    "@),
        all_ws("\n  "@),
        "\n    "@.len() == 5,
        "\n  "@.len() == 3,
        "\n  "@[0] == '\n',
        plain("clothingtype"@),
        plain("quantity"@),
        plain("measurement"@),
        "clothingtype"@.len() == 12,
        "quantity"@.len() == 8,
        "measurement"@.len() == 11,
        "quantity"@ != "clothingtype"@,
        "measurement"@ != "clothingtype"@,
        "measurement"@ != "quantity"@,
{
    reveal_strlit("{\n    \"clothingtype\": \"");
    reveal_strlit("\",\n    \"quantity\": \"");
    reveal_strlit("\",\n    \"measurement\": ");
    reveal_strlit("\n  }");
    reveal_strlit("clothingtype");
    reveal_strlit("quantity");
    reveal_strlit("measurement");
    reveal_strlit("\n    ");
    reveal_strlit("\n  ");
    assert("{\n    \"clothingtype\": \""@ =~= seq!['{'] + "\n    "@ + seq!['"']
        + "clothingtype"@ + seq!['"'] + seq![':'] + seq![' '] + seq!['"']);
    assert("\",\n    \"quantity\": \""@ =~= seq!['"'] + seq![','] + "\n    "@ + seq!['"']
        + "quantity"@ + seq!['"'] + seq![':'] + seq![' '] + seq!['"']);
    assert("\",\n    \"measurement\": "@ =~= seq!['"'] + seq![','] + "\n    "@ + seq!['"']
        + "measurement"@ + seq!['"'] + seq![':'] + seq![' ']);
    assert("\n  }"@ =~= "\n  "@ + seq!['}']);
}

/// The opening brace and clothingtype member of a canonically placed
/// details object.
#[verifier::rlimit(100)]
proof fn lemma_d_open_and_clothingtype(s: Seq<char>, a: Seq<char>, d: OrderDetailsView, b: Seq<char>)
    requires
        s == a + json_of_details(d) + b,
        plain(d.clothingtype),
    ensures
        spec_expect(s, a.len() as int, seq!['{']) == Some(a.len() as int + 1),
        spec_expect(s, spec_skip_ws(s, a.len() as int + 1), seq!['}']) is None,
        spec_member_name(s, a.len() as int + 1, true) == Some(
            ("clothingtype"@, a.len() as int + 22),
        ),
        spec_strval(s, a.len() as int + 22) == Some(
            (d.clothingtype, a.len() as int + 24 + d.clothingtype.len()),
        ),
{
    lemma_atoms_details();
    let w4 = "\n    "@;
    let w2 = "\n  "@;
    let jm = json_of_measurement(d.measurement);
    let a1 = a + seq!['{'];
    let b1 = seq![','] + w4 + seq!['"'] + "quantity"@ + seq!['"'] + seq![':'] + seq![' ']
        + seq!['"'] + d.quantity + seq!['"'] + seq![','] + w4 + seq!['"'] + "measurement"@
        + seq!['"'] + seq![':'] + seq![' '] + jm + w2 + seq!['}'] + b;
    assert(s =~= a1 + w4 + seq!['"'] + "clothingtype"@ + seq!['"'] + seq![':'] + seq![' ']
        + seq!['"'] + d.clothingtype + seq!['"'] + b1);
    let rest1 = w4 + seq!['"'] + "clothingtype"@ + seq!['"'] + seq![':'] + seq![' '] + seq!['"']
        + d.clothingtype + seq!['"'] + b1;
    assert(s =~= a + seq!['{'] + rest1);
    lemma_split_index(a, seq!['{'], rest1, s);
    lemma_expect_at(s, a.len() as int, seq!['{']);
    lemma_str_member_iter(s, a1, true, w4, "clothingtype"@, d.clothingtype, b1);
    assert(s.len() - b1.len() - d.clothingtype.len() - 2 == a.len() as int + 22);
}

/// The quantity member of a canonically placed details object.
#[verifier::rlimit(100)]
proof fn lemma_d_quantity(s: Seq<char>, a: Seq<char>, d: OrderDetailsView, b: Seq<char>)
    requires
        s == a + json_of_details(d) + b,
        plain(d.quantity),
    ensures
        spec_expect(
            s,
            spec_skip_ws(s, a.len() as int + 24 + d.clothingtype.len()),
            seq!['}'],
        ) is None,
        spec_member_name(s, a.len() as int + 24 + d.clothingtype.len(), false) == Some(
            ("quantity"@, a.len() as int + 42 + d.clothingtype.len()),
        ),
        spec_strval(s, a.len() as int + 42 + d.clothingtype.len()) == Some(
            (d.quantity, a.len() as int + 44 + d.clothingtype.len() + d.quantity.len()),
        ),
{
    lemma_atoms_details();
    let w4 = "\n    "@;
    let w2 = "\n  "@;
    let jm = json_of_measurement(d.measurement);
    let a2 = a + seq!['{'] + w4 + seq!['"'] + "clothingtype"@ + seq!['"'] + seq![':'] + seq![' ']
        + seq!['"'] + d.clothingtype + seq!['"'];
    let b2 = seq![','] + w4 + seq!['"'] + "measurement"@ + seq!['"'] + seq![':'] + seq![' '] + jm
        + w2 + seq!['}'] + b;
    assert(s =~= a2 + seq![','] + w4 + seq!['"'] + "quantity"@ + seq!['"'] + seq![':'] + seq![' ']
        + seq!['"'] + d.quantity + seq!['"'] + b2);
    lemma_str_member_iter(s, a2, false, w4, "quantity"@, d.quantity, b2);
    assert(a2.len() == a.len() as int + 24 + d.clothingtype.len());
    assert(s.len() - b2.len() - d.quantity.len() - 2 == a.len() as int + 42
        + d.clothingtype.len());
}

/// The measurement member of a canonically placed details object.
#[verifier::rlimit(100)]
proof fn lemma_d_measurement(s: Seq<char>, a: Seq<char>, d: OrderDetailsView, b: Seq<char>)
    requires
        s == a + json_of_details(d) + b,
        d.measurement.length <= usize::MAX,
        d.measurement.breadth <= usize::MAX,
    ensures
        spec_expect(
            s,
            spec_skip_ws(s, a.len() as int + 44 + d.clothingtype.len() + d.quantity.len()),
            seq!['}'],
        ) is None,
        spec_member_name(s, a.len() as int + 44 + d.clothingtype.len() + d.quantity.len(), false)
            == Some(("measurement"@, a.len() as int + 65 + d.clothingtype.len() + d.quantity.len())),
        spec_parse_measurement(s, a.len() as int + 65 + d.clothingtype.len() + d.quantity.len())
            == Ok::<_, ParseError>(
            (
                d.measurement,
                a.len() as int + 108 + d.clothingtype.len() + d.quantity.len() + dec(
                    d.measurement.length,
                ).len() + dec(d.measurement.breadth).len(),
            ),
        ),
{
    lemma_atoms_details();
    lemma_atoms_measurement();
    let w4 = "\n    "@;
    let w2 = "\n  "@;
    let jm = json_of_measurement(d.measurement);
    assert(jm[0] == '{') by {
        assert(jm[0] == "{\n      \"length\": "@[0]);
        assert("{\n      \"length\": "@[0] == (seq!['{'] + "\n      "@ + seq!['"'] + "length"@
            + seq!['"'] + seq![':'] + seq![' '])[0]);
    }
    let a3 = a + seq!['{'] + w4 + seq!['"'] + "clothingtype"@ + seq!['"'] + seq![':'] + seq![' ']
        + seq!['"'] + d.clothingtype + seq!['"'] + seq![','] + w4 + seq!['"'] + "quantity"@
        + seq!['"'] + seq![':'] + seq![' '] + seq!['"'] + d.quantity + seq!['"'];
    let b3 = jm + w2 + seq!['}'] + b;
    assert(s =~= a3 + seq![','] + w4 + seq!['"'] + "measurement"@ + seq!['"'] + seq![':']
        + seq![' '] + b3);
    assert(!is_ws(b3[0]));
    lemma_member_name_rt(s, a3, false, w4, "measurement"@, b3);
    assert(a3.len() == a.len() as int + 44 + d.clothingtype.len() + d.quantity.len());
    let j3 = s.len() - b3.len();
    assert(j3 == a.len() as int + 65 + d.clothingtype.len() + d.quantity.len());
    let a4 = a3 + seq![','] + w4 + seq!['"'] + "measurement"@ + seq!['"'] + seq![':'] + seq![' '];
    let b4 = w2 + seq!['}'] + b;
    assert(s =~= a4 + jm + b4);
    assert(a4.len() == j3);
    lemma_measurement_rt(s, a4, d.measurement, b4);
    assert(s.len() - b4.len() == j3 + 43 + dec(d.measurement.length).len() + dec(
        d.measurement.breadth,
    ).len());
}

/// The closing brace of a canonically placed details object.
#[verifier::rlimit(100)]
proof fn lemma_d_close(s: Seq<char>, a: Seq<char>, d: OrderDetailsView, b: Seq<char>)
    requires
        s == a + json_of_details(d) + b,
    ensures
        spec_skip_ws(
            s,
            a.len() as int + 108 + d.clothingtype.len() + d.quantity.len() + dec(
                d.measurement.length,
            ).len() + dec(d.measurement.breadth).len(),
        ) == a.len() as int + 111 + d.clothingtype.len() + d.quantity.len() + dec(
            d.measurement.length,
        ).len() + dec(d.measurement.breadth).len(),
        spec_expect(
            s,
            a.len() as int + 111 + d.clothingtype.len() + d.quantity.len() + dec(
                d.measurement.length,
            ).len() + dec(d.measurement.breadth).len(),
            seq!['}'],
        ) == Some(
            a.len() as int + 112 + d.clothingtype.len() + d.quantity.len() + dec(
                d.measurement.length,
            ).len() + dec(d.measurement.breadth).len(),
        ),
        s.len() - b.len() == a.len() as int + 112 + d.clothingtype.len() + d.quantity.len() + dec(
            d.measurement.length,
        ).len() + dec(d.measurement.breadth).len(),
{
    lemma_atoms_details();
    lemma_atoms_measurement();
    let w4 = "\n    "@;
    let w2 = "\n  "@;
    let jm = json_of_measurement(d.measurement);
    let a5 = a + seq!['{'] + w4 + seq!['"'] + "clothingtype"@ + seq!['"'] + seq![':'] + seq![' ']
        + seq!['"'] + d.clothingtype + seq!['"'] + seq![','] + w4 + seq!['"'] + "quantity"@
        + seq!['"'] + seq![':'] + seq![' '] + seq!['"'] + d.quantity + seq!['"'] + seq![','] + w4
        + seq!['"'] + "measurement"@ + seq!['"'] + seq![':'] + seq![' '] + jm;
    assert(s =~= a5 + w2 + (seq!['}'] + b));
    lemma_object_close(s, a5, w2, b);
    assert(a5.len() == a.len() as int + 108 + d.clothingtype.len() + d.quantity.len() + dec(
        d.measurement.length,
    ).len() + dec(d.measurement.breadth).len());
}

/// An object's closing brace, after a whitespace run, consumes both.
proof fn lemma_object_close(s: Seq<char>, a: Seq<char>, w: Seq<char>, b: Seq<char>)
    requires
        all_ws(w),
        s == a + w + (seq!['}'] + b),
    ensures
        spec_skip_ws(s, a.len() as int) == a.len() as int + w.len(),
        spec_expect(s, a.len() as int + w.len(), seq!['}']) == Some(
            a.len() as int + w.len() + 1,
        ),
        a.len() as int + w.len() + 1 == s.len() - b.len(),
{
    let j4 = a.len() as int;
    lemma_split_index(a, w, seq!['}'] + b, s);
    assert forall|k: int| j4 <= k < j4 + w.len() implies is_ws(#[trigger] s[k]) by {
        assert(s[j4 + (k - j4)] == w[k - j4]);
    }
    assert(s[j4 + w.len()] == (seq!['}'] + b)[0]);
    lemma_skip_ws_to(s, j4, j4 + w.len());
    let a6 = a + w;
    assert(s =~= a6 + seq!['}'] + b);
    lemma_split_index(a6, seq!['}'], b, s);
    lemma_expect_at(s, j4 + w.len(), seq!['}']);
}

/// A details object standing canonically in `s` parses to exactly its
/// fields.
#[verifier::rlimit(100)]
proof fn lemma_details_rt(s: Seq<char>, a: Seq<char>, d: OrderDetailsView, b: Seq<char>)
    requires
        s == a + json_of_details(d) + b,
        plain(d.clothingtype),
        plain(d.quantity),
        d.measurement.length <= usize::MAX,
        d.measurement.breadth <= usize::MAX,
    ensures
        spec_parse_details(s, a.len() as int) == Ok::<_, ParseError>((d, s.len() - b.len())),
{
    lemma_atoms_details();
    lemma_d_open_and_clothingtype(s, a, d, b);
    lemma_d_quantity(s, a, d, b);
    lemma_d_measurement(s, a, d, b);
    lemma_d_close(s, a, d, b);
    let i0 = a.len() as int;
    let e1 = i0 + 24 + d.clothingtype.len();
    let e2 = e1 + 20 + d.quantity.len();
    let e3 = e2 + 64 + dec(d.measurement.length).len() + dec(d.measurement.breadth).len();
    assert(e3 == i0 + 108 + d.clothingtype.len() + d.quantity.len() + dec(
        d.measurement.length,
    ).len() + dec(d.measurement.breadth).len());
    assert(spec_details_members(s, i0 + 1, true, None, None, None, 4) == spec_details_members(
        s,
        e1,
        false,
        Some(d.clothingtype),
        None,
        None,
        3,
    ));
    assert(spec_details_members(s, e1, false, Some(d.clothingtype), None, None, 3)
        == spec_details_members(s, e2, false, Some(d.clothingtype), Some(d.quantity), None, 2));
    assert(spec_details_members(s, e2, false, Some(d.clothingtype), Some(d.quantity), None, 2)
        == spec_details_members(
        s,
        e3,
        false,
        Some(d.clothingtype),
        Some(d.quantity),
        Some(d.measurement),
        1,
    ));
    assert(spec_details_members(
        s,
        e3,
        false,
        Some(d.clothingtype),
        Some(d.quantity),
        Some(d.measurement),
        1,
    ) == Ok::<_, ParseError>(
        (
            OrderDetailsView {
                clothingtype: d.clothingtype,
                quantity: d.quantity,
                measurement: d.measurement,
            },
            s.len() - b.len(),
        ),
    ));
    assert(OrderDetailsView {
        clothingtype: d.clothingtype,
        quantity: d.quantity,
        measurement: d.measurement,
    } == d);
}

/// The top-level record's fixed text, split into its tokens, with the
/// member names' facts the dispatch needs.
proof fn lemma_atoms_top()
    ensures
        "{\n  \"orderid\": \""@ == seq!['{'] + "\n  "@ + seq!['"'] + "orderid"@ + seq!['"']
            + seq![':'] + seq![' '] + seq!['"'],
        "\",\n  \"resellerid\": \""@ == seq!['"'] + seq![','] + "\n  "@ + seq!['"']
            + "resellerid"@ + seq!['"'] + seq![':'] + seq![' '] + seq!['"'],
        "\",\n  \"payment_status\": \""@ == seq!['"'] + seq![','] + "\n  "@ + seq!['"']
            + "payment_status"@ + seq!['"'] + seq![':'] + seq![' '] + seq!['"'],
        "\",\n  \"payment_amount\": \""@ == seq!['"'] + seq![','] + "\n  "@ + seq!['"']
            + "payment_amount"@ + seq!['"'] + seq![':'] + seq![' '] + seq!['"'],
        "\",\n  \"details\": "@ == seq!['"'] + seq![','] + "\n  "@ + seq!['"'] + "details"@
            + seq!['"'] + seq![':'] + seq![' '],
        ",\n  \"timestamp\": \""@ == seq![','] + "\n  "@ + seq!['"'] + "timestamp"@
            + seq!['"'] + seq![':'] + seq![' '] + seq!['"'],
        "\"\n}"@ == seq!['"'] + "\n"@ + seq!['}'],
        all_ws("\n  "@),
        all_ws("\n"@),
        "\n  "@.len() == 3,
        "\n"@.len() == 1,
        plain("orderid"@),
        plain("resellerid"@),
        plain("payment_status"@),
        plain("payment_amount"@),
        plain("details"@),
        plain("timestamp"@),
        "orderid"@.len() == 7,
        "resellerid"@.len() == 10,
        "payment_status"@.len() == 14,
        "payment_amount"@.len() == 14,
        "details"@.len() == 7,
        "timestamp"@.len() == 9,
        "resellerid"@ != "orderid"@,
        "payment_status"@ != "orderid"@,
        "payment_status"@ != "resellerid"@,
        "payment_amount"@ != "orderid"@,
        "payment_amount"@ != "resellerid"@,
        "payment_amount"@ != "payment_status"@,
        "details"@ != "orderid"@,
        "details"@ != "resellerid"@,
        "details"@ != "payment_status"@,
        "details"@ != "payment_amount"@,
        "timestamp"@ != "orderid"@,
        "timestamp"@ != "resellerid"@,
        "timestamp"@ != "payment_status"@,
        "timestamp"@ != "payment_amount"@,
        "timestamp"@ != "details"@,
{
    reveal_strlit("{\n  \"orderid\": \"");
    reveal_strlit("\",\n  \"resellerid\": \"");
    reveal_strlit("\",\n  \"payment_status\": \"");
    reveal_strlit("\",\n  \"payment_amount\": \"");
    reveal_strlit("\",\n  \"details\": ");
    reveal_strlit(",\n  \"timestamp\": \"");
    reveal_strlit("\"\n}");
    reveal_strlit("orderid");
    reveal_strlit("resellerid");
    reveal_strlit("payment_status");
    reveal_strlit("payment_amount");
    reveal_strlit("details");
    reveal_strlit("timestamp");
    reveal_strlit("\n  ");
    reveal_strlit("\n");
    assert("{\n  \"orderid\": \""@ =~= seq!['{'] + "\n  "@ + seq!['"'] + "orderid"@
        + seq!['"'] + seq![':'] + seq![' '] + seq!['"']);
    assert("\",\n  \"resellerid\": \""@ =~= seq!['"'] + seq![','] + "\n  "@ + seq!['"']
        + "resellerid"@ + seq!['"'] + seq![':'] + seq![' '] + seq!['"']);
    assert("\",\n  \"payment_status\": \""@ =~= seq!['"'] + seq![','] + "\n  "@ + seq!['"']
        + "payment_status"@ + seq!['"'] + seq![':'] + seq![' '] + seq!['"']);
    assert("\",\n  \"payment_amount\": \""@ =~= seq!['"'] + seq![','] + "\n  "@ + seq!['"']
        + "payment_amount"@ + seq!['"'] + seq![':'] + seq![' '] + seq!['"']);
    assert("\",\n  \"details\": "@ =~= seq!['"'] + seq![','] + "\n  "@ + seq!['"']
        + "details"@ + seq!['"'] + seq![':'] + seq![' ']);
    assert(",\n  \"timestamp\": \""@ =~= seq![','] + "\n  "@ + seq!['"'] + "timestamp"@
        + seq!['"'] + seq![':'] + seq![' '] + seq!['"']);
    assert("\"\n}"@ =~= seq!['"'] + "\n"@ + seq!['}']);
    assert("payment_amount"@[8] == 'a');
    assert("payment_status"@[8] == 's');
    assert("details"@[0] == 'd');
    assert("orderid"@[0] == 'o');
}

/// Position just past the orderid member's closing quote.
spec fn pos_e1(o: OrderView) -> int {
    17 + o.orderid.len() as int
}

/// Position just past the resellerid member's closing quote.
spec fn pos_e2(o: OrderView) -> int {
    pos_e1(o) + 20 + o.resellerid.len()
}

/// Position just past the payment_status member's closing quote.
spec fn pos_e3(o: OrderView) -> int {
    pos_e2(o) + 24 + o.payment_status.len()
}

/// Position just past the payment_amount member's closing quote.
spec fn pos_e4(o: OrderView) -> int {
    pos_e3(o) + 24 + o.payment_amount.len()
}

/// Position of the details object's opening brace.
spec fn pos_ds(o: OrderView) -> int {
    pos_e4(o) + 15
}

/// Position just past the details object's closing brace.
spec fn pos_de(o: OrderView) -> int {
    pos_ds(o) + 112 + o.details.clothingtype.len() + o.details.quantity.len() + dec(
        o.details.measurement.length,
    ).len() + dec(o.details.measurement.breadth).len()
}

/// Position just past the timestamp member's closing quote.
spec fn pos_e7(o: OrderView) -> int {
    pos_de(o) + 19 + o.timestamp.len()
}

/// The lengths of the top-level record's fixed texts.
proof fn lemma_top_lens()
    ensures
        "{\n  \"orderid\": \""@.len() == 16,
        "\",\n  \"resellerid\": \""@.len() == 20,
        "\",\n  \"payment_status\": \""@.len() == 24,
        "\",\n  \"payment_amount\": \""@.len() == 24,
        "\",\n  \"details\": "@.len() == 16,
        ",\n  \"timestamp\": \""@.len() == 18,
        "\"\n}"@.len() == 3,
{
    reveal_strlit("{\n  \"orderid\": \"");
    reveal_strlit("\",\n  \"resellerid\": \"");
    reveal_strlit("\",\n  \"payment_status\": \"");
    reveal_strlit("\",\n  \"payment_amount\": \"");
    reveal_strlit("\",\n  \"details\": ");
    reveal_strlit(",\n  \"timestamp\": \"");
    reveal_strlit("\"\n}");
}

/// The lengths of the serialized record and of its nested objects.
proof fn lemma_json_len(o: OrderView)
    ensures
        json_of(o).len() == pos_e7(o) + 2,
        json_of_details(o.details).len() == pos_de(o) - pos_ds(o),
        json_of_measurement(o.details.measurement).len() == 43 + dec(
            o.details.measurement.length,
        ).len() + dec(o.details.measurement.breadth).len(),
{
    lemma_atoms_top();
    lemma_atoms_details();
    lemma_atoms_measurement();
}

/// The opening brace and orderid member of the serialized record.
#[verifier::rlimit(100)]
proof fn lemma_t_open_and_orderid(s: Seq<char>, o: OrderView)
    requires
        s == json_of(o),
        plain(o.orderid),
    ensures
        spec_skip_ws(s, 0) == 0,
        spec_expect(s, 0, seq!['{']) == Some(1int),
        spec_expect(s, spec_skip_ws(s, 1), seq!['}']) is None,
        spec_member_name(s, 1, true) == Some(("orderid"@, 15int)),
        spec_strval(s, 15) == Some((o.orderid, pos_e1(o))),
        s.len() == pos_e7(o) + 2,
{
    lemma_atoms_top();
    lemma_json_len(o);
    let w2 = "\n  "@;
    assert(s.len() == pos_e7(o) + 2);
    let a1 = seq!['{'];
    let b1 = s.subrange(pos_e1(o), s.len() as int);
    assert(s =~= a1 + w2 + seq!['"'] + "orderid"@ + seq!['"'] + seq![':'] + seq![' '] + seq!['"']
        + o.orderid + seq!['"'] + b1);
    let rest1 = w2 + seq!['"'] + "orderid"@ + seq!['"'] + seq![':'] + seq![' '] + seq!['"']
        + o.orderid + seq!['"'] + b1;
    assert(s =~= Seq::<char>::empty() + seq!['{'] + rest1);
    lemma_split_index(Seq::<char>::empty(), seq!['{'], rest1, s);
    assert(!is_ws(s[0]));
    lemma_skip_ws_to(s, 0, 0);
    lemma_expect_at(s, 0, seq!['{']);
    lemma_str_member_iter(s, a1, true, w2, "orderid"@, o.orderid, b1);
    assert(s.len() - b1.len() - o.orderid.len() - 2 == 15);
}

/// The resellerid member of the serialized record.
#[verifier::rlimit(100)]
proof fn lemma_t_resellerid(s: Seq<char>, o: OrderView)
    requires
        s == json_of(o),
        plain(o.resellerid),
        s.len() == pos_e7(o) + 2,
    ensures
        spec_expect(s, spec_skip_ws(s, pos_e1(o)), seq!['}']) is None,
        spec_member_name(s, pos_e1(o), false) == Some(("resellerid"@, pos_e1(o) + 18)),
        spec_strval(s, pos_e1(o) + 18) == Some((o.resellerid, pos_e2(o))),
{
    lemma_atoms_top();
    let w2 = "\n  "@;
    let a = s.subrange(0, pos_e1(o));
    let b = s.subrange(pos_e2(o), s.len() as int);
    assert(s =~= a + seq![','] + w2 + seq!['"'] + "resellerid"@ + seq!['"'] + seq![':']
        + seq![' '] + seq!['"'] + o.resellerid + seq!['"'] + b);
    lemma_str_member_iter(s, a, false, w2, "resellerid"@, o.resellerid, b);
    assert(s.len() - b.len() - o.resellerid.len() - 2 == pos_e1(o) + 18);
}

/// The payment_status member of the serialized record.
#[verifier::rlimit(100)]
proof fn lemma_t_payment_status(s: Seq<char>, o: OrderView)
    requires
        s == json_of(o),
        plain(o.payment_status),
        s.len() == pos_e7(o) + 2,
    ensures
        spec_expect(s, spec_skip_ws(s, pos_e2(o)), seq!['}']) is None,
        spec_member_name(s, pos_e2(o), false) == Some(("payment_status"@, pos_e2(o) + 22)),
        spec_strval(s, pos_e2(o) + 22) == Some((o.payment_status, pos_e3(o))),
{
    lemma_atoms_top();
    let w2 = "\n  "@;
    let a = s.subrange(0, pos_e2(o));
    let b = s.subrange(pos_e3(o), s.len() as int);
    assert(s =~= a + seq![','] + w2 + seq!['"'] + "payment_status"@ + seq!['"'] + seq![':']
        + seq![' '] + seq!['"'] + o.payment_status + seq!['"'] + b);
    lemma_str_member_iter(s, a, false, w2, "payment_status"@, o.payment_status, b);
    assert(s.len() - b.len() - o.payment_status.len() - 2 == pos_e2(o) + 22);
}

/// The payment_amount member of the serialized record.
#[verifier::rlimit(100)]
proof fn lemma_t_payment_amount(s: Seq<char>, o: OrderView)
    requires
        s == json_of(o),
        plain(o.payment_amount),
        s.len() == pos_e7(o) + 2,
    ensures
        spec_expect(s, spec_skip_ws(s, pos_e3(o)), seq!['}']) is None,
        spec_member_name(s, pos_e3(o), false) == Some(("payment_amount"@, pos_e3(o) + 22)),
        spec_strval(s, pos_e3(o) + 22) == Some((o.payment_amount, pos_e4(o))),
{
    lemma_atoms_top();
    let w2 = "\n  "@;
    let a = s.subrange(0, pos_e3(o));
    let b = s.subrange(pos_e4(o), s.len() as int);
    assert(s =~= a + seq![','] + w2 + seq!['"'] + "payment_amount"@ + seq!['"'] + seq![':']
        + seq![' '] + seq!['"'] + o.payment_amount + seq!['"'] + b);
    lemma_str_member_iter(s, a, false, w2, "payment_amount"@, o.payment_amount, b);
    assert(s.len() - b.len() - o.payment_amount.len() - 2 == pos_e3(o) + 22);
}

/// The details member's lead-in in the serialized record.
#[verifier::rlimit(100)]
proof fn lemma_t_details_lead(s: Seq<char>, o: OrderView)
    requires
        s == json_of(o),
        s.len() == pos_e7(o) + 2,
    ensures
        spec_expect(s, spec_skip_ws(s, pos_e4(o)), seq!['}']) is None,
        spec_member_name(s, pos_e4(o), false) == Some(("details"@, pos_ds(o))),
{
    lemma_atoms_top();
    lemma_atoms_details();
    let w2 = "\n  "@;
    let a = s.subrange(0, pos_e4(o));
    let b = s.subrange(pos_ds(o), s.len() as int);
    assert(s =~= a + seq![','] + w2 + seq!['"'] + "details"@ + seq!['"'] + seq![':'] + seq![' ']
        + b);
    assert(b[0] == '{') by {
        assert(b[0] == s[pos_ds(o)]);
        assert(s[pos_ds(o)] == "{\n    \"clothingtype\": \""@[0]);
        assert("{\n    \"clothingtype\": \""@[0] == (seq!['{'] + "\n    "@ + seq!['"']
            + "clothingtype"@ + seq!['"'] + seq![':'] + seq![' '] + seq!['"'])[0]);
    }
    lemma_member_name_rt(s, a, false, w2, "details"@, b);
}

/// The details object inside the serialized record.
#[verifier::rlimit(100)]
proof fn lemma_t_details(s: Seq<char>, o: OrderView)
    requires
        s == json_of(o),
        o.wf(),
        s.len() == pos_e7(o) + 2,
    ensures
        spec_parse_details(s, pos_ds(o)) == Ok::<_, ParseError>((o.details, pos_de(o))),
{
    lemma_top_lens();
    lemma_json_len(o);
    let a = s.subrange(0, pos_ds(o));
    let b = s.subrange(pos_de(o), s.len() as int);
    assert(s =~= a + json_of_details(o.details) + b);
    lemma_details_rt(s, a, o.details, b);
}

/// The timestamp member of the serialized record.
#[verifier::rlimit(100)]
proof fn lemma_t_timestamp(s: Seq<char>, o: OrderView)
    requires
        s == json_of(o),
        plain(o.timestamp),
        s.len() == pos_e7(o) + 2,
    ensures
        spec_expect(s, spec_skip_ws(s, pos_de(o)), seq!['}']) is None,
        spec_member_name(s, pos_de(o), false) == Some(("timestamp"@, pos_de(o) + 17)),
        spec_strval(s, pos_de(o) + 17) == Some((o.timestamp, pos_e7(o))),
{
    lemma_atoms_timestamp();
    lemma_top_lens();
    lemma_json_len(o);
    let w2 = "\n  "@;
    let a = s.subrange(0, pos_de(o));
    let b = s.subrange(pos_e7(o), s.len() as int);
    assert(s =~= a + seq![','] + w2 + seq!['"'] + "timestamp"@ + seq!['"'] + seq![':'] + seq![' ']
        + seq!['"'] + o.timestamp + seq!['"'] + b);
    lemma_str_member_iter(s, a, false, w2, "timestamp"@, o.timestamp, b);
    assert(s.len() - b.len() - o.timestamp.len() - 2 == pos_de(o) + 17);
}

/// The timestamp member's fixed text, split into its tokens.
proof fn lemma_atoms_timestamp()
    ensures
        ",\n  \"timestamp\": \""@ == seq![','] + "\n  "@ + seq!['"'] + "timestamp"@
            + seq!['"'] + seq![':'] + seq![' '] + seq!['"'],
        "\"\n}"@ == seq!['"'] + "\n"@ + seq!['}'],
        all_ws("\n  "@),
        "\n  "@.len() == 3,
        "\n"@.len() == 1,
        plain("timestamp"@),
        "timestamp"@.len() == 9,
{
    reveal_strlit(",\n  \"timestamp\": \"");
    reveal_strlit("\"\n}");
    reveal_strlit("timestamp");
    reveal_strlit("\n  ");
    reveal_strlit("\n");
    assert(",\n  \"timestamp\": \""@ =~= seq![','] + "\n  "@ + seq!['"'] + "timestamp"@
        + seq!['"'] + seq![':'] + seq![' '] + seq!['"']);
    assert("\"\n}"@ =~= seq!['"'] + "\n"@ + seq!['}']);
}

/// The closing brace of the serialized record.
#[verifier::rlimit(100)]
proof fn lemma_t_close(s: Seq<char>, o: OrderView)
    requires
        s == json_of(o),
        s.len() == pos_e7(o) + 2,
    ensures
        spec_skip_ws(s, pos_e7(o)) == pos_e7(o) + 1,
        spec_expect(s, pos_e7(o) + 1, seq!['}']) == Some(pos_e7(o) + 2),
        spec_skip_ws(s, s.len() as int) == s.len(),
{
    lemma_atoms_top();
    let nl = "\n"@;
    let a = s.subrange(0, pos_e7(o));
    assert(s =~= a + nl + (seq!['}'] + Seq::<char>::empty()));
    lemma_object_close(s, a, nl, Seq::<char>::empty());
}

/// The member names the dispatch distinguishes are pairwise distinct.
proof fn lemma_name_distinct()
    ensures
        "resellerid"@ != "orderid"@,
        "payment_status"@ != "orderid"@,
        "payment_status"@ != "resellerid"@,
        "payment_amount"@ != "orderid"@,
        "payment_amount"@ != "resellerid"@,
        "payment_amount"@ != "payment_status"@,
        "details"@ != "orderid"@,
        "details"@ != "resellerid"@,
        "details"@ != "payment_status"@,
        "details"@ != "payment_amount"@,
        "timestamp"@ != "orderid"@,
        "timestamp"@ != "resellerid"@,
        "timestamp"@ != "payment_status"@,
        "timestamp"@ != "payment_amount"@,
        "timestamp"@ != "details"@,
{
    lemma_atoms_top();
}

/// The serialized record's first four members parse in sequence.
#[verifier::rlimit(100)]
proof fn lemma_wire_prefix(s: Seq<char>, o: OrderView)
    requires
        s == json_of(o),
        o.wf(),
        s.len() == pos_e7(o) + 2,
    ensures
        spec_order_members(s, 1, true, None, None, None, None, None, None, 7)
            == spec_order_members(
            s,
            pos_e4(o),
            false,
            Some(o.orderid),
            Some(o.resellerid),
            Some(o.payment_status),
            Some(o.payment_amount),
            None,
            None,
            3,
        ),
{
    lemma_wire_first_two(s, o);
    lemma_name_distinct();
    lemma_t_payment_status(s, o);
    lemma_t_payment_amount(s, o);
    let oid = o.orderid;
    let rid = o.resellerid;
    let pst = o.payment_status;
    assert(spec_order_members(s, pos_e2(o), false, Some(oid), Some(rid), None, None, None, None, 5)
        == spec_order_members(s, pos_e3(o), false, Some(oid), Some(rid), Some(pst), None, None, None, 4));
    assert(spec_order_members(s, pos_e3(o), false, Some(oid), Some(rid), Some(pst), None, None, None, 4)
        == spec_order_members(s, pos_e4(o), false, Some(oid), Some(rid), Some(pst), Some(o.payment_amount), None, None, 3));
}

/// The serialized record's first two members parse in sequence.
#[verifier::rlimit(100)]
proof fn lemma_wire_first_two(s: Seq<char>, o: OrderView)
    requires
        s == json_of(o),
        o.wf(),
        s.len() == pos_e7(o) + 2,
    ensures
        spec_order_members(s, 1, true, None, None, None, None, None, None, 7)
            == spec_order_members(
            s,
            pos_e2(o),
            false,
            Some(o.orderid),
            Some(o.resellerid),
            None,
            None,
            None,
            None,
            5,
        ),
{
    lemma_name_distinct();
    lemma_t_open_and_orderid(s, o);
    lemma_t_resellerid(s, o);
    let oid = o.orderid;
    let rid = o.resellerid;
    assert(spec_order_members(s, 1, true, None, None, None, None, None, None, 7)
        == spec_order_members(s, pos_e1(o), false, Some(oid), None, None, None, None, None, 6));
    assert(spec_order_members(s, pos_e1(o), false, Some(oid), None, None, None, None, None, 6)
        == spec_order_members(s, pos_e2(o), false, Some(oid), Some(rid), None, None, None, None, 5));
}

/// Round trip of the wire codec: the serialized text of any well-formed
/// Order decodes back to exactly that Order, with every field preserved.
#[verifier::rlimit(100)]
pub proof fn lemma_wire_round_trip(o: OrderView)
    requires
        o.wf(),
    ensures
        spec_parse_order(json_of(o)) == Ok::<_, ParseError>(o),
{
    let s = json_of(o);
    lemma_t_open_and_orderid(s, o);
    lemma_name_distinct();
    lemma_wire_prefix(s, o);
    lemma_t_details_lead(s, o);
    lemma_t_details(s, o);
    lemma_t_timestamp(s, o);
    lemma_t_close(s, o);
    let oid = o.orderid;
    let rid = o.resellerid;
    let pst = o.payment_status;
    let pam = o.payment_amount;
    let det = o.details;
    let ts = o.timestamp;
    assert(spec_order_members(s, pos_e4(o), false, Some(oid), Some(rid), Some(pst), Some(pam), None, None, 3)
        == spec_order_members(s, pos_de(o), false, Some(oid), Some(rid), Some(pst), Some(pam), Some(det), None, 2));
    assert(spec_order_members(s, pos_de(o), false, Some(oid), Some(rid), Some(pst), Some(pam), Some(det), None, 2)
        == spec_order_members(s, pos_e7(o), false, Some(oid), Some(rid), Some(pst), Some(pam), Some(det), Some(ts), 1));
    let built = OrderView {
        orderid: oid,
        resellerid: rid,
        payment_status: pst,
        payment_amount: pam,
        details: det,
        timestamp: ts,
    };
    assert(spec_order_members(s, pos_e7(o), false, Some(oid), Some(rid), Some(pst), Some(pam), Some(det), Some(ts), 1)
        == Ok::<_, ParseError>((built, pos_e7(o) + 2)));
    assert(spec_parse_order_at(s, 0) == Ok::<_, ParseError>((built, pos_e7(o) + 2)));
    assert(built == o);
}

/// End to end: an accepted Order travels the whole pipeline intact — its
/// wire text decodes back to the same Order at the relay listener, and the
/// flat record the sink upserts re-joins to the same Order, every field
/// textually preserved.
pub proof fn lemma_pipeline_round_trip(o: OrderView)
    requires
        o.wf(),
    ensures
        spec_parse_order(json_of(o)) == Ok::<_, ParseError>(o),
        rejoin(flat_of(o)) == Some(o),
{
    lemma_wire_round_trip(o);
    lemma_flatten_rejoin(o);
}

} // verus!
