//! Rewrites calculator notation (root sign, superscript two, absolute-value
//! bars) into the plain arithmetic syntax the lexer reads.
use vstd::prelude::*;

verus! {

/// `√(` becomes `sqrt(`; a root sign not followed by `(` is kept.
pub open spec fn expand_roots(s: Seq<char>) -> Seq<char>
    decreases s.len(),
{
    if s.len() == 0 {
        s
    } else if s.len() >= 2 && s[0] == '√' && s[1] == '(' {
        seq!['s', 'q', 'r', 't', '('] + expand_roots(s.subrange(2, s.len() as int))
    } else {
        seq![s[0]] + expand_roots(s.subrange(1, s.len() as int))
    }
}

/// Every `²` becomes `^2`.
pub open spec fn expand_squares(s: Seq<char>) -> Seq<char>
    decreases s.len(),
{
    if s.len() == 0 {
        s
    } else if s[0] == '²' {
        seq!['^', '2'] + expand_squares(s.subrange(1, s.len() as int))
    } else {
        seq![s[0]] + expand_squares(s.subrange(1, s.len() as int))
    }
}

/// Bars alternate between opening `abs(` and closing `)`; `inside` tells
/// whether an absolute value is open before `s`.
pub open spec fn pair_bars(s: Seq<char>, inside: bool) -> Seq<char>
    decreases s.len(),
{
    if s.len() == 0 {
        s
    } else if s[0] == '|' {
        if inside {
            seq![')'] + pair_bars(s.subrange(1, s.len() as int), false)
        } else {
            seq!['a', 'b', 's', '('] + pair_bars(s.subrange(1, s.len() as int), true)
        }
    } else {
        seq![s[0]] + pair_bars(s.subrange(1, s.len() as int), inside)
    }
}

/// The three rewrites, in order.
pub open spec fn normalized(s: Seq<char>) -> Seq<char> {
    pair_bars(expand_squares(expand_roots(s)), false)
}

/// A character that only calculator notation uses.
pub open spec fn is_glyph(c: char) -> bool {
    c == '√' || c == '²' || c == '|'
}

pub open spec fn glyph_free(s: Seq<char>) -> bool {
    forall|i: int| 0 <= i < s.len() ==> !is_glyph(#[trigger] s[i])
}

/// Relies on `String::from_iter`: the string holds the given characters in order.
#[verifier::external_body]
fn string_of(v: &Vec<char>) -> (r: String)
    ensures
        r@ == v@,
{
    String::from_iter(v.iter())
}

pub fn chars_of(s: &str) -> (r: Vec<char>)
    ensures
        r@ == s@,
{
    let n = s.unicode_len();
    let mut out: Vec<char> = Vec::new();
    let mut i: usize = 0;
    while i < n
        invariant
            n == s@.len(),
            i <= n,
            out@ == s@.subrange(0, i as int),
        decreases n - i,
    {
        out.push(s.get_char(i));
        i += 1;
        assert(out@ =~= s@.subrange(0, i as int));
    }
    assert(out@ =~= s@);
    out
}

fn push_all(out: &mut Vec<char>, lit: &[char])
    ensures
        final(out)@ == old(out)@ + lit@,
{
    let mut j: usize = 0;
    while j < lit.len()
        invariant
            j <= lit@.len(),
            out@ == old(out)@ + lit@.subrange(0, j as int),
        decreases lit@.len() - j,
    {
        out.push(lit[j]);
        j += 1;
        assert(out@ =~= old(out)@ + lit@.subrange(0, j as int));
    }
    assert(lit@.subrange(0, lit@.len() as int) =~= lit@);
}

fn rewrite_roots(s: &Vec<char>) -> (r: Vec<char>)
    ensures
        r@ == expand_roots(s@),
{
    let n = s.len();
    let mut out: Vec<char> = Vec::new();
    let mut i: usize = 0;
    assert(s@.subrange(0, n as int) =~= s@);
    assert(out@ + expand_roots(s@) =~= expand_roots(s@));
    while i < n
        invariant
            n == s@.len(),
            i <= n,
            expand_roots(s@) == out@ + expand_roots(s@.subrange(i as int, n as int)),
        decreases n - i,
    {
        let ghost rest = s@.subrange(i as int, n as int);
        if i + 1 < n && s[i] == '√' && s[i + 1] == '(' {
            push_all(&mut out, &['s', 'q', 'r', 't', '(']);
            assert(rest.subrange(2, rest.len() as int) =~= s@.subrange(i + 2, n as int));
            i += 2;
        } else {
            out.push(s[i]);
            assert(rest.subrange(1, rest.len() as int) =~= s@.subrange(i + 1, n as int));
            i += 1;
        }
        assert(expand_roots(s@) == out@ + expand_roots(s@.subrange(i as int, n as int)));
    }
    assert(out@ + seq![] =~= out@);
    out
}

fn rewrite_squares(s: &Vec<char>) -> (r: Vec<char>)
    ensures
        r@ == expand_squares(s@),
{
    let n = s.len();
    let mut out: Vec<char> = Vec::new();
    let mut i: usize = 0;
    assert(s@.subrange(0, n as int) =~= s@);
    assert(out@ + expand_squares(s@) =~= expand_squares(s@));
    while i < n
        invariant
            n == s@.len(),
            i <= n,
            expand_squares(s@) == out@ + expand_squares(s@.subrange(i as int, n as int)),
        decreases n - i,
    {
        let ghost rest = s@.subrange(i as int, n as int);
        assert(rest.subrange(1, rest.len() as int) =~= s@.subrange(i + 1, n as int));
        if s[i] == '²' {
            push_all(&mut out, &['^', '2']);
        } else {
            out.push(s[i]);
        }
        i += 1;
    }
    assert(out@ + seq![] =~= out@);
    out
}

fn rewrite_bars(s: &Vec<char>) -> (r: Vec<char>)
    ensures
        r@ == pair_bars(s@, false),
{
    let n = s.len();
    let mut out: Vec<char> = Vec::new();
    let mut inside = false;
    let mut i: usize = 0;
    assert(s@.subrange(0, n as int) =~= s@);
    assert(out@ + pair_bars(s@, false) =~= pair_bars(s@, false));
    while i < n
        invariant
            n == s@.len(),
            i <= n,
            pair_bars(s@, false) == out@ + pair_bars(s@.subrange(i as int, n as int), inside),
        decreases n - i,
    {
        let ghost rest = s@.subrange(i as int, n as int);
        assert(rest.subrange(1, rest.len() as int) =~= s@.subrange(i + 1, n as int));
        if s[i] == '|' {
            if inside {
                out.push(')');
                inside = false;
            } else {
                push_all(&mut out, &['a', 'b', 's', '(']);
                inside = true;
            }
        } else {
            out.push(s[i]);
        }
        i += 1;
    }
    assert(out@ + seq![] =~= out@);
    out
}

/// Rewrites calculator notation into canonical arithmetic syntax. Never
/// fails: characters it does not know pass through for the lexer to judge.
pub fn normalize(raw: &str) -> (r: String)
    ensures
        r@ == normalized(raw@),
{
    let chars = chars_of(raw);
    let roots = rewrite_roots(&chars);
    let squares = rewrite_squares(&roots);
    let bars = rewrite_bars(&squares);
    string_of(&bars)
}

proof fn lemma_roots_identity(s: Seq<char>)
    requires
        forall|i: int| 0 <= i < s.len() ==> #[trigger] s[i] != '√',
    ensures
        expand_roots(s) == s,
    decreases s.len(),
{
    if s.len() > 0 {
        let t = s.subrange(1, s.len() as int);
        assert forall|i: int| 0 <= i < t.len() implies #[trigger] t[i] != '√' by {
            assert(t[i] == s[i + 1]);
        }
        lemma_roots_identity(t);
        assert(seq![s[0]] + t =~= s);
    }
}

proof fn lemma_squares_identity(s: Seq<char>)
    requires
        forall|i: int| 0 <= i < s.len() ==> #[trigger] s[i] != '²',
    ensures
        expand_squares(s) == s,
    decreases s.len(),
{
    if s.len() > 0 {
        let t = s.subrange(1, s.len() as int);
        assert forall|i: int| 0 <= i < t.len() implies #[trigger] t[i] != '²' by {
            assert(t[i] == s[i + 1]);
        }
        lemma_squares_identity(t);
        assert(seq![s[0]] + t =~= s);
    }
}

proof fn lemma_bars_identity(s: Seq<char>, inside: bool)
    requires
        forall|i: int| 0 <= i < s.len() ==> #[trigger] s[i] != '|',
    ensures
        pair_bars(s, inside) == s,
    decreases s.len(),
{
    if s.len() > 0 {
        let t = s.subrange(1, s.len() as int);
        assert forall|i: int| 0 <= i < t.len() implies #[trigger] t[i] != '|' by {
            assert(t[i] == s[i + 1]);
        }
        lemma_bars_identity(t, inside);
        assert(seq![s[0]] + t =~= s);
    }
}

/// A string with no root sign, superscript two or bar is left exactly as it
/// is; in particular, normalizing canonical syntax changes nothing.
pub proof fn lemma_normalize_glyph_free(s: Seq<char>)
    requires
        glyph_free(s),
    ensures
        normalized(s) == s,
{
    assert forall|i: int| 0 <= i < s.len() implies #[trigger] s[i] != '√' by {
        assert(!is_glyph(s[i]));
    }
    lemma_roots_identity(s);
    assert forall|i: int| 0 <= i < s.len() implies #[trigger] s[i] != '²' by {
        assert(!is_glyph(s[i]));
    }
    lemma_squares_identity(s);
    assert forall|i: int| 0 <= i < s.len() implies #[trigger] s[i] != '|' by {
        assert(!is_glyph(s[i]));
    }
    lemma_bars_identity(s, false);
}

proof fn lemma_bars_prefix(x: Seq<char>, y: Seq<char>, inside: bool)
    requires
        forall|i: int| 0 <= i < x.len() ==> #[trigger] x[i] != '|',
    ensures
        pair_bars(x + y, inside) == x + pair_bars(y, inside),
    decreases x.len(),
{
    if x.len() > 0 {
        let t = x.subrange(1, x.len() as int);
        assert forall|i: int| 0 <= i < t.len() implies #[trigger] t[i] != '|' by {
            assert(t[i] == x[i + 1]);
        }
        lemma_bars_prefix(t, y, inside);
        assert((x + y).subrange(1, (x + y).len() as int) =~= t + y);
        assert(seq![x[0]] + (t + pair_bars(y, inside)) =~= x + pair_bars(y, inside));
    } else {
        assert(x + y =~= y);
        assert(x + pair_bars(y, inside) =~= pair_bars(y, inside));
    }
}

/// A pair of bars around text without calculator glyphs becomes a call of
/// `abs` on that text.
pub proof fn lemma_bars_make_abs(x: Seq<char>)
    requires
        glyph_free(x),
    ensures
        normalized(seq!['|'] + x + seq!['|']) == seq!['a', 'b', 's', '('] + x + seq![')'],
{
    let s = seq!['|'] + x + seq!['|'];
    assert forall|i: int| 0 <= i < s.len() implies #[trigger] s[i] != '√' && s[i] != '²' by {
        if 1 <= i <= x.len() {
            assert(s[i] == x[i - 1]);
            assert(!is_glyph(x[i - 1]));
        }
    }
    lemma_roots_identity(s);
    lemma_squares_identity(s);
    let rest = x + seq!['|'];
    assert(s.subrange(1, s.len() as int) =~= rest);
    assert forall|i: int| 0 <= i < x.len() implies #[trigger] x[i] != '|' by {
        assert(!is_glyph(x[i]));
    }
    lemma_bars_prefix(x, seq!['|'], true);
    let bar = seq!['|'];
    assert(bar.subrange(1, 1) =~= Seq::<char>::empty());
    assert(pair_bars(bar.subrange(1, 1), false) =~= Seq::<char>::empty());
    assert(seq![')'] + Seq::<char>::empty() =~= seq![')']);
    assert(pair_bars(bar, true) == seq![')']);
    assert(seq!['a', 'b', 's', '('] + (x + seq![')']) =~= seq!['a', 'b', 's', '('] + x + seq![')']);
}

/// No root sign stands right before `(`.
pub open spec fn no_root_call(s: Seq<char>) -> bool {
    forall|i: int| 0 <= i && i + 1 < s.len() && #[trigger] s[i] == '√' ==> s[i + 1] != '('
}

pub open spec fn lacks(s: Seq<char>, c: char) -> bool {
    forall|i: int| 0 <= i < s.len() ==> #[trigger] s[i] != c
}

/// The output starts with `(` only where the input does.
pub open spec fn opens_like(out: Seq<char>, s: Seq<char>) -> bool {
    out.len() > 0 && out[0] == '(' ==> s.len() > 0 && s[0] == '('
}

proof fn lemma_no_root_call_concat(a: Seq<char>, b: Seq<char>)
    requires
        no_root_call(a),
        no_root_call(b),
        a.len() > 0 && b.len() > 0 && a.last() == '√' ==> b[0] != '(',
    ensures
        no_root_call(a + b),
{
    let s = a + b;
    assert forall|i: int| 0 <= i && i + 1 < s.len() && #[trigger] s[i] == '√' implies s[i + 1] != '(' by {
        if i + 1 < a.len() {
            assert(s[i] == a[i] && s[i + 1] == a[i + 1]);
        } else if i + 1 == a.len() {
            assert(s[i] == a.last() && s[i + 1] == b[0]);
        } else {
            assert(s[i] == b[i - a.len()] && s[i + 1] == b[i + 1 - a.len()]);
        }
    }
}

proof fn lemma_lacks_concat(a: Seq<char>, b: Seq<char>, c: char)
    requires
        lacks(a, c),
        lacks(b, c),
    ensures
        lacks(a + b, c),
{
    assert forall|i: int| 0 <= i < (a + b).len() implies #[trigger] (a + b)[i] != c by {
        if i < a.len() {
            assert((a + b)[i] == a[i]);
        } else {
            assert((a + b)[i] == b[i - a.len()]);
        }
    }
}

proof fn lemma_lacks_tail(s: Seq<char>, c: char)
    requires
        s.len() > 0,
        lacks(s, c),
    ensures
        lacks(s.subrange(1, s.len() as int), c),
{
    let t = s.subrange(1, s.len() as int);
    assert forall|i: int| 0 <= i < t.len() implies #[trigger] t[i] != c by {
        assert(t[i] == s[i + 1]);
    }
}

proof fn lemma_no_root_call_tail(s: Seq<char>)
    requires
        s.len() > 0,
        no_root_call(s),
    ensures
        no_root_call(s.subrange(1, s.len() as int)),
{
    let t = s.subrange(1, s.len() as int);
    assert forall|i: int| 0 <= i && i + 1 < t.len() && #[trigger] t[i] == '√' implies t[i + 1] != '(' by {
        assert(t[i] == s[i + 1] && t[i + 1] == s[i + 2]);
    }
}

proof fn lemma_roots_identity_general(s: Seq<char>)
    requires
        no_root_call(s),
    ensures
        expand_roots(s) == s,
    decreases s.len(),
{
    if s.len() > 0 {
        let t = s.subrange(1, s.len() as int);
        lemma_no_root_call_tail(s);
        lemma_roots_identity_general(t);
        assert(seq![s[0]] + t =~= s);
    }
}

proof fn lemma_roots_output(s: Seq<char>)
    ensures
        no_root_call(expand_roots(s)),
        opens_like(expand_roots(s), s),
    decreases s.len(),
{
    if s.len() > 0 {
        if s.len() >= 2 && s[0] == '√' && s[1] == '(' {
            let t = s.subrange(2, s.len() as int);
            lemma_roots_output(t);
            let a = seq!['s', 'q', 'r', 't', '('];
            assert(no_root_call(a));
            lemma_no_root_call_concat(a, expand_roots(t));
        } else {
            let t = s.subrange(1, s.len() as int);
            lemma_roots_output(t);
            let r = expand_roots(t);
            if s[0] == '√' && r.len() > 0 && r[0] == '(' {
                assert(t[0] == s[1]);
            }
            lemma_no_root_call_concat(seq![s[0]], r);
        }
    }
}

proof fn lemma_squares_output(s: Seq<char>)
    requires
        no_root_call(s),
    ensures
        no_root_call(expand_squares(s)),
        lacks(expand_squares(s), '²'),
        opens_like(expand_squares(s), s),
    decreases s.len(),
{
    if s.len() > 0 {
        let t = s.subrange(1, s.len() as int);
        lemma_no_root_call_tail(s);
        lemma_squares_output(t);
        let r = expand_squares(t);
        let a = if s[0] == '²' {
            seq!['^', '2']
        } else {
            seq![s[0]]
        };
        assert(no_root_call(a));
        if s[0] == '√' && r.len() > 0 && r[0] == '(' {
            assert(t[0] == s[1]);
        }
        lemma_no_root_call_concat(a, r);
        assert(lacks(a, '²'));
        lemma_lacks_concat(a, r, '²');
    }
}

proof fn lemma_bars_output(s: Seq<char>, inside: bool)
    requires
        no_root_call(s),
        lacks(s, '²'),
    ensures
        no_root_call(pair_bars(s, inside)),
        lacks(pair_bars(s, inside), '²'),
        lacks(pair_bars(s, inside), '|'),
        opens_like(pair_bars(s, inside), s),
    decreases s.len(),
{
    if s.len() > 0 {
        let t = s.subrange(1, s.len() as int);
        lemma_no_root_call_tail(s);
        lemma_lacks_tail(s, '²');
        let next = if s[0] == '|' {
            !inside
        } else {
            inside
        };
        lemma_bars_output(t, next);
        let r = pair_bars(t, next);
        let a = if s[0] == '|' {
            if inside {
                seq![')']
            } else {
                seq!['a', 'b', 's', '(']
            }
        } else {
            seq![s[0]]
        };
        assert(pair_bars(s, inside) == a + r);
        assert(no_root_call(a));
        if s[0] == '√' && r.len() > 0 && r[0] == '(' {
            assert(t[0] == s[1]);
        }
        lemma_no_root_call_concat(a, r);
        assert(lacks(a, '²'));
        lemma_lacks_concat(a, r, '²');
        assert(lacks(a, '|'));
        lemma_lacks_concat(a, r, '|');
    }
}

/// Normalizing twice gives what normalizing once gave.
pub proof fn lemma_normalize_idempotent(s: Seq<char>)
    ensures
        normalized(normalized(s)) == normalized(s),
{
    let a = expand_roots(s);
    lemma_roots_output(s);
    lemma_squares_output(a);
    let b = expand_squares(a);
    lemma_bars_output(b, false);
    let c = pair_bars(b, false);
    lemma_roots_identity_general(c);
    lemma_squares_identity(c);
    lemma_bars_identity(c, false);
}

} // verus!
