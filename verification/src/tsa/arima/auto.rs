//! Stepwise ARIMA model selection (Hyndman-Khandakar): the candidate
//! orders, the neighbourhood moves and the search itself, driven by the
//! caller who fits each candidate and reports how it compared.
use vstd::prelude::*;
use crate::tsa::arima::{ArimaMethod, ArimaOpts};

verus! {

/// Options for the stepwise search.
#[derive(Debug, Clone, Copy)]
pub struct AutoArimaOpts {
    /// Seasonal period `m`; `0` means non-seasonal.
    pub seasonal_period: u32,
    /// Upper bound on `p`.
    pub max_p: u32,
    /// Upper bound on `d`.
    pub max_d: u32,
    /// Upper bound on `q`.
    pub max_q: u32,
    /// Upper bound on the seasonal AR order `P`.
    pub max_seasonal_p: u32,
    /// Upper bound on the seasonal differencing order `D`.
    pub max_seasonal_d: u32,
    /// Upper bound on the seasonal MA order `Q`.
    pub max_seasonal_q: u32,
    /// Estimation method of every candidate fit.
    pub method: ArimaMethod,
    /// Force the constant on or off; `None` lets the search toggle it.
    pub include_constant: Option<bool>,
    /// Cap on the number of neighbourhood sweeps after the starting slate.
    pub max_iter: usize,
}

impl AutoArimaOpts {
    /// Non-seasonal Hyndman-Khandakar defaults.
    pub fn new() -> (r: Self)
        ensures
            r.seasonal_period == 0,
            r.max_p == 5,
            r.max_d == 2,
            r.max_q == 5,
            r.max_seasonal_p == 0,
            r.max_seasonal_d == 0,
            r.max_seasonal_q == 0,
            r.method == ArimaMethod::Css,
            r.include_constant is None,
            r.max_iter == 50,
    {
        AutoArimaOpts {
            seasonal_period: 0,
            max_p: 5,
            max_d: 2,
            max_q: 5,
            max_seasonal_p: 0,
            max_seasonal_d: 0,
            max_seasonal_q: 0,
            method: ArimaMethod::Css,
            include_constant: None,
            max_iter: 50,
        }
    }

    /// Defaults for a seasonal series of period `m`.
    pub fn seasonal(m: u32) -> (r: Self)
        ensures
            r.seasonal_period == m,
            r.max_p == 5,
            r.max_d == 2,
            r.max_q == 5,
            r.max_seasonal_p == 2,
            r.max_seasonal_d == 1,
            r.max_seasonal_q == 2,
            r.method == ArimaMethod::Css,
            r.include_constant is None,
            r.max_iter == 50,
    {
        AutoArimaOpts {
            seasonal_period: m,
            max_p: 5,
            max_d: 2,
            max_q: 5,
            max_seasonal_p: 2,
            max_seasonal_d: 1,
            max_seasonal_q: 2,
            method: ArimaMethod::Css,
            include_constant: None,
            max_iter: 50,
        }
    }
}

impl Default for AutoArimaOpts {
    fn default() -> (r: Self)
        ensures
            r.seasonal_period == 0,
            r.max_p == 5,
            r.max_d == 2,
            r.max_q == 5,
            r.max_seasonal_p == 0,
            r.max_seasonal_d == 0,
            r.max_seasonal_q == 0,
            r.method == ArimaMethod::Css,
            r.include_constant is None,
            r.max_iter == 50,
    {
        Self::new()
    }
}

/// One candidate model: its orders and whether it has a constant.
#[derive(Debug, Clone, Copy, PartialEq, Eq, Hash, Structural)]
pub struct Key {
    pub p: u32,
    pub d: u32,
    pub q: u32,
    pub big_p: u32,
    pub big_d: u32,
    pub big_q: u32,
    pub include_constant: bool,
}

/// `seq![k]` when `cond` holds, the empty sequence otherwise.
pub open spec fn key_if(cond: bool, k: Key) -> Seq<Key> {
    if cond { seq![k] } else { Seq::empty() }
}

/// The part of `spec_neighbours` that moves the non-seasonal orders.
pub open spec fn spec_neighbours_pq(k: Key, opts: AutoArimaOpts) -> Seq<Key> {
    key_if(k.p < opts.max_p, Key { p: (k.p + 1) as u32, ..k })
    + key_if(k.p > 0, Key { p: (k.p - 1) as u32, ..k })
    + key_if(k.q < opts.max_q, Key { q: (k.q + 1) as u32, ..k })
    + key_if(k.q > 0, Key { q: (k.q - 1) as u32, ..k })
}

/// The part of `spec_neighbours` that moves the seasonal orders.
pub open spec fn spec_neighbours_seasonal(k: Key, opts: AutoArimaOpts) -> Seq<Key> {
    key_if(k.big_p < opts.max_seasonal_p, Key { big_p: (k.big_p + 1) as u32, ..k })
    + key_if(k.big_p > 0, Key { big_p: (k.big_p - 1) as u32, ..k })
    + key_if(k.big_q < opts.max_seasonal_q, Key { big_q: (k.big_q + 1) as u32, ..k })
    + key_if(k.big_q > 0, Key { big_q: (k.big_q - 1) as u32, ..k })
}

/// The neighbourhood of `k`, in the order the search visits it: `p` up and
/// down, `q` up and down, then (for `m >= 2`) `P` and `Q` up and down, each
/// kept within `[0, max]`, and last the constant toggled when it is not pinned.
pub open spec fn spec_neighbours(k: Key, m: u32, opts: AutoArimaOpts) -> Seq<Key> {
    spec_neighbours_pq(k, opts)
    + (if m >= 2 { spec_neighbours_seasonal(k, opts) } else { Seq::empty() })
    + key_if(opts.include_constant is None, Key { include_constant: !k.include_constant, ..k })
}

fn neighbours_pq(k: Key, opts: &AutoArimaOpts, out: &mut Vec<Key>)
    ensures
        final(out)@ == old(out)@ + spec_neighbours_pq(k, *opts),
{
    let ghost s0 = out@;
    if k.p < opts.max_p {
        out.push(Key { p: k.p + 1, ..k });
    }
    let ghost s1 = out@;
    assert(s1 =~= s0 + key_if(k.p < opts.max_p, Key { p: (k.p + 1) as u32, ..k }));
    if k.p > 0 {
        out.push(Key { p: k.p - 1, ..k });
    }
    let ghost s2 = out@;
    assert(s2 =~= s1 + key_if(k.p > 0, Key { p: (k.p - 1) as u32, ..k }));
    if k.q < opts.max_q {
        out.push(Key { q: k.q + 1, ..k });
    }
    let ghost s3 = out@;
    assert(s3 =~= s2 + key_if(k.q < opts.max_q, Key { q: (k.q + 1) as u32, ..k }));
    if k.q > 0 {
        out.push(Key { q: k.q - 1, ..k });
    }
    assert(out@ =~= s3 + key_if(k.q > 0, Key { q: (k.q - 1) as u32, ..k }));
    assert(out@ =~= s0 + spec_neighbours_pq(k, *opts));
}

fn neighbours_seasonal(k: Key, opts: &AutoArimaOpts, out: &mut Vec<Key>)
    ensures
        final(out)@ == old(out)@ + spec_neighbours_seasonal(k, *opts),
{
    let ghost s0 = out@;
    if k.big_p < opts.max_seasonal_p {
        out.push(Key { big_p: k.big_p + 1, ..k });
    }
    let ghost s1 = out@;
    assert(s1 =~= s0 + key_if(k.big_p < opts.max_seasonal_p, Key { big_p: (k.big_p + 1) as u32, ..k }));
    if k.big_p > 0 {
        out.push(Key { big_p: k.big_p - 1, ..k });
    }
    let ghost s2 = out@;
    assert(s2 =~= s1 + key_if(k.big_p > 0, Key { big_p: (k.big_p - 1) as u32, ..k }));
    if k.big_q < opts.max_seasonal_q {
        out.push(Key { big_q: k.big_q + 1, ..k });
    }
    let ghost s3 = out@;
    assert(s3 =~= s2 + key_if(k.big_q < opts.max_seasonal_q, Key { big_q: (k.big_q + 1) as u32, ..k }));
    if k.big_q > 0 {
        out.push(Key { big_q: k.big_q - 1, ..k });
    }
    assert(out@ =~= s3 + key_if(k.big_q > 0, Key { big_q: (k.big_q - 1) as u32, ..k }));
    assert(out@ =~= s0 + spec_neighbours_seasonal(k, *opts));
}

/// The neighbours of `k` visited by one stepwise sweep.
pub fn neighbours_of(k: Key, m: u32, opts: &AutoArimaOpts) -> (r: Vec<Key>)
    ensures
        r@ == spec_neighbours(k, m, *opts),
        forall|x: Key| one_move(k, x, m, *opts) ==> r@.contains(x),
        forall|i: int| 0 <= i < r.len() ==> one_move(k, #[trigger] r@[i], m, *opts),
{
    proof {
        lemma_neighbours_sound(k, m, *opts);
        assert forall|x: Key| one_move(k, x, m, *opts) implies spec_neighbours(k, m, *opts).contains(x) by {
            lemma_move_in_neighbours(k, m, *opts, x);
        }
    }
    let mut out: Vec<Key> = Vec::new();
    neighbours_pq(k, opts, &mut out);
    if m >= 2 {
        neighbours_seasonal(k, opts, &mut out);
    }
    let ghost s = out@;
    if opts.include_constant.is_none() {
        out.push(Key { include_constant: !k.include_constant, ..k });
    }
    proof {
        assert(out@ =~= s + key_if(opts.include_constant is None, Key { include_constant: !k.include_constant, ..k }));
        assert(out@ =~= spec_neighbours(k, m, *opts));
    }
    out
}

proof fn lemma_contains_left(a: Seq<Key>, b: Seq<Key>, x: Key)
    requires
        a.contains(x),
    ensures
        (a + b).contains(x),
{
    let i = choose|i: int| 0 <= i < a.len() && a[i] == x;
    assert((a + b)[i] == x);
}

proof fn lemma_contains_right(a: Seq<Key>, b: Seq<Key>, x: Key)
    requires
        b.contains(x),
    ensures
        (a + b).contains(x),
{
    let i = choose|i: int| 0 <= i < b.len() && b[i] == x;
    assert((a + b)[a.len() + i] == x);
}

proof fn lemma_key_if_contains(c: bool, x: Key)
    requires
        c,
    ensures
        key_if(c, x).contains(x),
{
    assert(key_if(c, x)[0] == x);
}

/// `x` is one stepwise move away from `k`: one of `p`, `q` (and, for a
/// seasonal search, `P`, `Q`) raised or lowered by one within `[0, max]`,
/// or the constant toggled when the options leave it free.
pub open spec fn one_move(k: Key, x: Key, m: u32, opts: AutoArimaOpts) -> bool {
    ||| pq_move(k, x, opts)
    ||| m >= 2 && seasonal_move(k, x, opts)
    ||| opts.include_constant is None && x == (Key { include_constant: !k.include_constant, ..k })
}

/// `x` is `k` with `p` or `q` moved by one within `[0, max]`.
pub open spec fn pq_move(k: Key, x: Key, opts: AutoArimaOpts) -> bool {
    ||| k.p < opts.max_p && x == (Key { p: (k.p + 1) as u32, ..k })
    ||| k.p > 0 && x == (Key { p: (k.p - 1) as u32, ..k })
    ||| k.q < opts.max_q && x == (Key { q: (k.q + 1) as u32, ..k })
    ||| k.q > 0 && x == (Key { q: (k.q - 1) as u32, ..k })
}

/// `x` is `k` with `P` or `Q` moved by one within `[0, max]`.
pub open spec fn seasonal_move(k: Key, x: Key, opts: AutoArimaOpts) -> bool {
    ||| k.big_p < opts.max_seasonal_p && x == (Key { big_p: (k.big_p + 1) as u32, ..k })
    ||| k.big_p > 0 && x == (Key { big_p: (k.big_p - 1) as u32, ..k })
    ||| k.big_q < opts.max_seasonal_q && x == (Key { big_q: (k.big_q + 1) as u32, ..k })
    ||| k.big_q > 0 && x == (Key { big_q: (k.big_q - 1) as u32, ..k })
}

proof fn lemma_in_four(a1: Seq<Key>, a2: Seq<Key>, a3: Seq<Key>, a4: Seq<Key>, x: Key)
    requires
        a1.contains(x) || a2.contains(x) || a3.contains(x) || a4.contains(x),
    ensures
        (a1 + a2 + a3 + a4).contains(x),
{
    if a1.contains(x) {
        lemma_contains_left(a1, a2, x);
        lemma_contains_left(a1 + a2, a3, x);
        lemma_contains_left(a1 + a2 + a3, a4, x);
    } else if a2.contains(x) {
        lemma_contains_right(a1, a2, x);
        lemma_contains_left(a1 + a2, a3, x);
        lemma_contains_left(a1 + a2 + a3, a4, x);
    } else if a3.contains(x) {
        lemma_contains_right(a1 + a2, a3, x);
        lemma_contains_left(a1 + a2 + a3, a4, x);
    } else {
        lemma_contains_right(a1 + a2 + a3, a4, x);
    }
}

proof fn lemma_move_in_pq(k: Key, opts: AutoArimaOpts, x: Key)
    requires
        pq_move(k, x, opts),
    ensures
        spec_neighbours_pq(k, opts).contains(x),
{
    let a1 = key_if(k.p < opts.max_p, Key { p: (k.p + 1) as u32, ..k });
    let a2 = key_if(k.p > 0, Key { p: (k.p - 1) as u32, ..k });
    let a3 = key_if(k.q < opts.max_q, Key { q: (k.q + 1) as u32, ..k });
    let a4 = key_if(k.q > 0, Key { q: (k.q - 1) as u32, ..k });
    if k.p < opts.max_p && x == (Key { p: (k.p + 1) as u32, ..k }) {
        lemma_key_if_contains(true, x);
    } else if k.p > 0 && x == (Key { p: (k.p - 1) as u32, ..k }) {
        lemma_key_if_contains(true, x);
    } else if k.q < opts.max_q && x == (Key { q: (k.q + 1) as u32, ..k }) {
        lemma_key_if_contains(true, x);
    } else {
        lemma_key_if_contains(true, x);
    }
    lemma_in_four(a1, a2, a3, a4, x);
}

proof fn lemma_move_in_seasonal(k: Key, opts: AutoArimaOpts, x: Key)
    requires
        seasonal_move(k, x, opts),
    ensures
        spec_neighbours_seasonal(k, opts).contains(x),
{
    let b1 = key_if(k.big_p < opts.max_seasonal_p, Key { big_p: (k.big_p + 1) as u32, ..k });
    let b2 = key_if(k.big_p > 0, Key { big_p: (k.big_p - 1) as u32, ..k });
    let b3 = key_if(k.big_q < opts.max_seasonal_q, Key { big_q: (k.big_q + 1) as u32, ..k });
    let b4 = key_if(k.big_q > 0, Key { big_q: (k.big_q - 1) as u32, ..k });
    lemma_key_if_contains(true, x);
    lemma_in_four(b1, b2, b3, b4, x);
}

/// Every stepwise move from `k` is in its neighbourhood.
pub proof fn lemma_move_in_neighbours(k: Key, m: u32, opts: AutoArimaOpts, x: Key)
    requires
        one_move(k, x, m, opts),
    ensures
        spec_neighbours(k, m, opts).contains(x),
{
    let pq = spec_neighbours_pq(k, opts);
    let sea = if m >= 2 { spec_neighbours_seasonal(k, opts) } else { Seq::empty() };
    let tog = key_if(opts.include_constant is None, Key { include_constant: !k.include_constant, ..k });
    assert(spec_neighbours(k, m, opts) == pq + sea + tog);
    if pq_move(k, x, opts) {
        lemma_move_in_pq(k, opts, x);
        lemma_contains_left(pq, sea, x);
        lemma_contains_left(pq + sea, tog, x);
    } else if m >= 2 && seasonal_move(k, x, opts) {
        lemma_move_in_seasonal(k, opts, x);
        lemma_contains_right(pq, sea, x);
        lemma_contains_left(pq + sea, tog, x);
    } else {
        lemma_key_if_contains(true, x);
        lemma_contains_right(pq + sea, tog, x);
    }
}

/// The neighbourhood holds every stepwise move: each order raised when
/// below its bound and lowered when positive (the seasonal orders only for
/// a seasonal search, `m >= 2`), and the constant toggled when not pinned.
pub proof fn lemma_neighbours_complete(k: Key, m: u32, opts: AutoArimaOpts)
    ensures
        k.p < opts.max_p ==> spec_neighbours(k, m, opts).contains(Key { p: (k.p + 1) as u32, ..k }),
        k.p >= 1 ==> spec_neighbours(k, m, opts).contains(Key { p: (k.p - 1) as u32, ..k }),
        k.q < opts.max_q ==> spec_neighbours(k, m, opts).contains(Key { q: (k.q + 1) as u32, ..k }),
        k.q >= 1 ==> spec_neighbours(k, m, opts).contains(Key { q: (k.q - 1) as u32, ..k }),
        m >= 2 && k.big_p < opts.max_seasonal_p
            ==> spec_neighbours(k, m, opts).contains(Key { big_p: (k.big_p + 1) as u32, ..k }),
        m >= 2 && k.big_p >= 1 ==> spec_neighbours(k, m, opts).contains(Key { big_p: (k.big_p - 1) as u32, ..k }),
        m >= 2 && k.big_q < opts.max_seasonal_q
            ==> spec_neighbours(k, m, opts).contains(Key { big_q: (k.big_q + 1) as u32, ..k }),
        m >= 2 && k.big_q >= 1 ==> spec_neighbours(k, m, opts).contains(Key { big_q: (k.big_q - 1) as u32, ..k }),
        opts.include_constant is None
            ==> spec_neighbours(k, m, opts).contains(Key { include_constant: !k.include_constant, ..k }),
{
    if k.p < opts.max_p { lemma_move_in_neighbours(k, m, opts, Key { p: (k.p + 1) as u32, ..k }); }
    if k.p >= 1 { lemma_move_in_neighbours(k, m, opts, Key { p: (k.p - 1) as u32, ..k }); }
    if k.q < opts.max_q { lemma_move_in_neighbours(k, m, opts, Key { q: (k.q + 1) as u32, ..k }); }
    if k.q >= 1 { lemma_move_in_neighbours(k, m, opts, Key { q: (k.q - 1) as u32, ..k }); }
    if m >= 2 && k.big_p < opts.max_seasonal_p {
        lemma_move_in_neighbours(k, m, opts, Key { big_p: (k.big_p + 1) as u32, ..k });
    }
    if m >= 2 && k.big_p >= 1 { lemma_move_in_neighbours(k, m, opts, Key { big_p: (k.big_p - 1) as u32, ..k }); }
    if m >= 2 && k.big_q < opts.max_seasonal_q {
        lemma_move_in_neighbours(k, m, opts, Key { big_q: (k.big_q + 1) as u32, ..k });
    }
    if m >= 2 && k.big_q >= 1 { lemma_move_in_neighbours(k, m, opts, Key { big_q: (k.big_q - 1) as u32, ..k }); }
    if opts.include_constant is None {
        lemma_move_in_neighbours(k, m, opts, Key { include_constant: !k.include_constant, ..k });
    }
}

pub open spec fn all_moves(k: Key, s: Seq<Key>, m: u32, opts: AutoArimaOpts) -> bool {
    forall|i: int| 0 <= i < s.len() ==> one_move(k, #[trigger] s[i], m, opts)
}

proof fn lemma_all_moves_concat(k: Key, a: Seq<Key>, b: Seq<Key>, m: u32, opts: AutoArimaOpts)
    requires
        all_moves(k, a, m, opts),
        all_moves(k, b, m, opts),
    ensures
        all_moves(k, a + b, m, opts),
{
    assert forall|i: int| 0 <= i < (a + b).len() implies one_move(k, #[trigger] (a + b)[i], m, opts) by {
        if i < a.len() {
            assert((a + b)[i] == a[i]);
        } else {
            assert((a + b)[i] == b[i - a.len()]);
        }
    }
}

proof fn lemma_key_if_move(k: Key, c: bool, x: Key, m: u32, opts: AutoArimaOpts)
    requires
        c ==> one_move(k, x, m, opts),
    ensures
        all_moves(k, key_if(c, x), m, opts),
{
}

/// The neighbourhood holds nothing but stepwise moves.
pub proof fn lemma_neighbours_sound(k: Key, m: u32, opts: AutoArimaOpts)
    ensures
        all_moves(k, spec_neighbours(k, m, opts), m, opts),
{
    let a1 = key_if(k.p < opts.max_p, Key { p: (k.p + 1) as u32, ..k });
    let a2 = key_if(k.p > 0, Key { p: (k.p - 1) as u32, ..k });
    let a3 = key_if(k.q < opts.max_q, Key { q: (k.q + 1) as u32, ..k });
    let a4 = key_if(k.q > 0, Key { q: (k.q - 1) as u32, ..k });
    lemma_key_if_move(k, k.p < opts.max_p, Key { p: (k.p + 1) as u32, ..k }, m, opts);
    lemma_key_if_move(k, k.p > 0, Key { p: (k.p - 1) as u32, ..k }, m, opts);
    lemma_key_if_move(k, k.q < opts.max_q, Key { q: (k.q + 1) as u32, ..k }, m, opts);
    lemma_key_if_move(k, k.q > 0, Key { q: (k.q - 1) as u32, ..k }, m, opts);
    lemma_all_moves_concat(k, a1, a2, m, opts);
    lemma_all_moves_concat(k, a1 + a2, a3, m, opts);
    lemma_all_moves_concat(k, a1 + a2 + a3, a4, m, opts);
    let pq = spec_neighbours_pq(k, opts);
    assert(pq == a1 + a2 + a3 + a4);
    let sea = if m >= 2 { spec_neighbours_seasonal(k, opts) } else { Seq::empty() };
    if m >= 2 {
        let b1 = key_if(k.big_p < opts.max_seasonal_p, Key { big_p: (k.big_p + 1) as u32, ..k });
        let b2 = key_if(k.big_p > 0, Key { big_p: (k.big_p - 1) as u32, ..k });
        let b3 = key_if(k.big_q < opts.max_seasonal_q, Key { big_q: (k.big_q + 1) as u32, ..k });
        let b4 = key_if(k.big_q > 0, Key { big_q: (k.big_q - 1) as u32, ..k });
        lemma_key_if_move(k, k.big_p < opts.max_seasonal_p, Key { big_p: (k.big_p + 1) as u32, ..k }, m, opts);
        lemma_key_if_move(k, k.big_p > 0, Key { big_p: (k.big_p - 1) as u32, ..k }, m, opts);
        lemma_key_if_move(k, k.big_q < opts.max_seasonal_q, Key { big_q: (k.big_q + 1) as u32, ..k }, m, opts);
        lemma_key_if_move(k, k.big_q > 0, Key { big_q: (k.big_q - 1) as u32, ..k }, m, opts);
        lemma_all_moves_concat(k, b1, b2, m, opts);
        lemma_all_moves_concat(k, b1 + b2, b3, m, opts);
        lemma_all_moves_concat(k, b1 + b2 + b3, b4, m, opts);
        assert(sea == b1 + b2 + b3 + b4);
    }
    let tog = key_if(opts.include_constant is None, Key { include_constant: !k.include_constant, ..k });
    lemma_key_if_move(k, opts.include_constant is None, Key { include_constant: !k.include_constant, ..k }, m, opts);
    lemma_all_moves_concat(k, pq, sea, m, opts);
    lemma_all_moves_concat(k, pq + sea, tog, m, opts);
}


/// A candidate is fitted only when `max(p + P, q + Q) <= 6` and it does not
/// pair a constant with `d + D >= 2` (a constant integrated twice becomes a
/// quadratic trend).
pub open spec fn admissible(k: Key) -> bool {
    &&& k.p + k.big_p <= 6
    &&& k.q + k.big_q <= 6
    &&& !(k.include_constant && k.d + k.big_d >= 2)
}

pub fn is_admissible(k: Key) -> (r: bool)
    ensures
        r == admissible(k),
        r == (k.p + k.big_p <= 6 && k.q + k.big_q <= 6 && !(k.include_constant && k.d + k.big_d >= 2)),
{
    let ar: u64 = k.p as u64 + k.big_p as u64;
    let ma: u64 = k.q as u64 + k.big_q as u64;
    let diff: u64 = k.d as u64 + k.big_d as u64;
    ar <= 6 && ma <= 6 && !(k.include_constant && diff >= 2)
}

/// Which candidates are fitted, in terms of their orders: none with
/// `p + P > 6` or `q + Q > 6`; among the others, every model without a
/// constant and every model with at most one difference in all
/// (`d + D <= 1`), and no model that pairs a constant with `d + D >= 2`.
pub proof fn lemma_admissible_by_orders(k: Key)
    ensures
        k.p + k.big_p > 6 || k.q + k.big_q > 6 ==> !admissible(k),
        k.p + k.big_p <= 6 && k.q + k.big_q <= 6 && !k.include_constant ==> admissible(k),
        k.p + k.big_p <= 6 && k.q + k.big_q <= 6 && k.d + k.big_d <= 1 ==> admissible(k),
        k.include_constant && k.d + k.big_d >= 2 ==> !admissible(k),
{
}

/// The constant is included unless `d + D >= 2`, when not pinned by the options.
pub open spec fn spec_initial_constant(opts: AutoArimaOpts, d: u32, big_d: u32) -> bool {
    match opts.include_constant {
        Some(c) => c,
        None => d + big_d < 2,
    }
}

/// The key with the chosen differencing orders and constant.
pub open spec fn slate_key(p: u32, q: u32, big_p: u32, big_q: u32, d: u32, big_d: u32, c: bool) -> Key {
    Key { p, d, q, big_p, big_d, big_q, include_constant: c }
}

/// A starting model `(p, q, P, Q)` is tried when every order is within its bound.
pub open spec fn within_bounds(opts: AutoArimaOpts, p: u32, q: u32, big_p: u32, big_q: u32) -> bool {
    p <= opts.max_p && q <= opts.max_q && big_p <= opts.max_seasonal_p && big_q <= opts.max_seasonal_q
}

pub open spec fn slate_entry(opts: AutoArimaOpts, d: u32, big_d: u32, c: bool, p: u32, q: u32, big_p: u32, big_q: u32) -> Seq<Key> {
    key_if(within_bounds(opts, p, q, big_p, big_q), slate_key(p, q, big_p, big_q, d, big_d, c))
}

/// The starting slate: `(2,2,1,1), (0,0,0,0), (1,0,1,0), (0,1,0,1)` as
/// `(p, q, P, Q)` for a seasonal search (`m >= 2`), `(2,2), (0,0), (1,0),
/// (0,1)` as `(p, q)` otherwise, keeping those within the bounds.
pub open spec fn spec_slate(opts: AutoArimaOpts, d: u32, big_d: u32, c: bool) -> Seq<Key> {
    if opts.seasonal_period >= 2 {
        slate_entry(opts, d, big_d, c, 2, 2, 1, 1)
        + slate_entry(opts, d, big_d, c, 0, 0, 0, 0)
        + slate_entry(opts, d, big_d, c, 1, 0, 1, 0)
        + slate_entry(opts, d, big_d, c, 0, 1, 0, 1)
    } else {
        slate_entry(opts, d, big_d, c, 2, 2, 0, 0)
        + slate_entry(opts, d, big_d, c, 0, 0, 0, 0)
        + slate_entry(opts, d, big_d, c, 1, 0, 0, 0)
        + slate_entry(opts, d, big_d, c, 0, 1, 0, 0)
    }
}

fn push_slate_entry(out: &mut Vec<Key>, opts: &AutoArimaOpts, d: u32, big_d: u32, c: bool,
    p: u32, q: u32, big_p: u32, big_q: u32)
    ensures
        final(out)@ == old(out)@ + slate_entry(*opts, d, big_d, c, p, q, big_p, big_q),
{
    if p <= opts.max_p && q <= opts.max_q && big_p <= opts.max_seasonal_p && big_q <= opts.max_seasonal_q {
        out.push(Key { p, d, q, big_p, big_d, big_q, include_constant: c });
    }
    assert(final(out)@ =~= old(out)@ + slate_entry(*opts, d, big_d, c, p, q, big_p, big_q));
}

/// With the constant left to the search, every model of the starting slate
/// is fitted: the constant is on only when `d + D <= 1`, and the slate's
/// orders keep `p + P` and `q + Q` at most 3.
pub proof fn lemma_unpinned_slate_admissible(opts: AutoArimaOpts, d: u32, big_d: u32)
    requires
        opts.include_constant is None,
    ensures
        forall|i: int| 0 <= i < spec_slate(opts, d, big_d, spec_initial_constant(opts, d, big_d)).len()
            ==> admissible(#[trigger] spec_slate(opts, d, big_d, spec_initial_constant(opts, d, big_d))[i]),
{
    let c = spec_initial_constant(opts, d, big_d);
    let sl = spec_slate(opts, d, big_d, c);
    assert forall|i: int| 0 <= i < sl.len() implies admissible(#[trigger] sl[i]) by {
        let k = sl[i];
        assert(k.d == d && k.big_d == big_d && k.include_constant == c);
        assert(k.p <= 2 && k.q <= 2 && k.big_p <= 1 && k.big_q <= 1);
        lemma_admissible_by_orders(k);
    }
}

/// Stage of the stepwise search.
#[derive(Debug, Clone, Copy, PartialEq, Eq, Structural)]
pub enum SearchStage {
    /// Fitting the starting slate.
    Slate,
    /// No slate model could be fitted; trying ARIMA(0, d, 0).
    Fallback,
    /// Fitting the neighbours of the best model.
    Sweep,
    /// A sweep improved the best model; the next sweep is due.
    Between,
    /// The search is over.
    Done,
}

/// What the caller does next.
#[derive(Debug, Clone, Copy, PartialEq, Eq, Structural)]
pub enum SearchAction {
    /// Fit this candidate, then call `report_fit` with whether it is the
    /// new best model (it fitted, its criterion is finite and lower than
    /// that of the best model so far, or there is none).
    Fit(Key),
    /// A neighbourhood sweep starts: remember the best criterion so far.
    BeginSweep,
    /// The sweep is over: call `report_sweep` with whether the best
    /// criterion fell by more than the tolerance during it.
    EndSweep,
    /// The search is over and this is the selected model.
    Finish(Key),
    /// No candidate could be fitted.
    Fail,
}

/// The search state as mathematical values.
pub struct SearchView {
    pub opts: AutoArimaOpts,
    pub d: u32,
    pub big_d: u32,
    pub initial_constant: bool,
    /// Every candidate considered so far, in order (fitted or refused).
    pub tried: Seq<Key>,
    pub best: Option<Key>,
    /// Candidates of the current stage and the position of the next one.
    pub queue: Seq<Key>,
    pub cursor: int,
    pub stage: SearchStage,
    /// Sweeps started so far.
    pub sweeps: int,
    /// A candidate handed out whose fit has not been reported.
    pub pending: Option<Key>,
    /// A sweep has ended and its outcome has not been reported.
    pub awaiting_outcome: bool,
}

/// The stepwise search, driven by the caller: `next_action` says what to do,
/// `report_fit` and `report_sweep` hand back the outcome.
pub struct AutoSearch {
    opts: AutoArimaOpts,
    d: u32,
    big_d: u32,
    initial_constant: bool,
    tried: Vec<Key>,
    best: Option<Key>,
    queue: Vec<Key>,
    cursor: usize,
    stage: SearchStage,
    sweeps: usize,
    pending: Option<Key>,
    awaiting_outcome: bool,
}

impl View for AutoSearch {
    type V = SearchView;

    closed spec fn view(&self) -> SearchView {
        SearchView {
            opts: self.opts,
            d: self.d,
            big_d: self.big_d,
            initial_constant: self.initial_constant,
            tried: self.tried@,
            best: self.best,
            queue: self.queue@,
            cursor: self.cursor as int,
            stage: self.stage,
            sweeps: self.sweeps as int,
            pending: self.pending,
            awaiting_outcome: self.awaiting_outcome,
        }
    }
}

/// Decreases when the slate gives way to the fallback model.
pub open spec fn stage_rank(s: SearchStage) -> int {
    if s == SearchStage::Slate { 1 } else { 0 }
}

/// The ARIMA(0, d, 0) model tried when no slate model fitted.
pub open spec fn fallback_key(v: SearchView) -> Key {
    slate_key(0, 0, 0, 0, v.d, v.big_d, v.initial_constant)
}

/// Start the next sweep around the best model, or finish once `max_iter`
/// sweeps have run.
pub open spec fn spec_start_sweep(v: SearchView) -> (SearchView, SearchAction) {
    if v.sweeps >= v.opts.max_iter {
        (SearchView { stage: SearchStage::Done, ..v }, SearchAction::Finish(v.best->0))
    } else {
        (SearchView {
            stage: SearchStage::Sweep,
            queue: spec_neighbours(v.best->0, v.opts.seasonal_period, v.opts),
            cursor: 0,
            sweeps: v.sweeps + 1,
            ..v
        }, SearchAction::BeginSweep)
    }
}

/// The next action of the search in state `v`, and the state after it.
/// An outstanding request is repeated. Otherwise the next candidate of the
/// current stage that was not considered before is considered: it is
/// recorded, and handed out when admissible. When the stage has no such
/// candidate left the search moves on: from the slate to the fallback model
/// (no slate model fitted) or to the first sweep, from a sweep to its
/// outcome, and from an outcome that found an improvement to the next sweep.
pub open spec fn spec_next(v: SearchView) -> (SearchView, SearchAction)
    decreases stage_rank(v.stage), v.queue.len() - v.cursor,
{
    if v.pending is Some {
        (v, SearchAction::Fit(v.pending->0))
    } else if v.awaiting_outcome {
        (v, SearchAction::EndSweep)
    } else if 0 <= v.cursor < v.queue.len() {
        let k = v.queue[v.cursor];
        let fresh = !v.tried.contains(k);
        let v1 = SearchView {
            cursor: v.cursor + 1,
            tried: if fresh { v.tried.push(k) } else { v.tried },
            ..v
        };
        if fresh && admissible(k) {
            (SearchView { pending: Some(k), ..v1 }, SearchAction::Fit(k))
        } else {
            spec_next(v1)
        }
    } else {
        match v.stage {
            SearchStage::Slate => if v.best is None {
                spec_next(SearchView {
                    stage: SearchStage::Fallback,
                    queue: seq![fallback_key(v)],
                    cursor: 0,
                    ..v
                })
            } else {
                spec_start_sweep(v)
            },
            SearchStage::Fallback => if v.best is None {
                (SearchView { stage: SearchStage::Done, ..v }, SearchAction::Fail)
            } else {
                spec_start_sweep(v)
            },
            SearchStage::Sweep => (SearchView { awaiting_outcome: true, ..v }, SearchAction::EndSweep),
            SearchStage::Between => spec_start_sweep(v),
            SearchStage::Done => match v.best {
                Some(k) => (v, SearchAction::Finish(k)),
                None => (v, SearchAction::Fail),
            },
        }
    }
}

/// The state after the caller reports the fit of the outstanding candidate:
/// it becomes the best model when `new_best`. Without an outstanding
/// candidate nothing changes.
pub open spec fn spec_report_fit(v: SearchView, new_best: bool) -> SearchView {
    match v.pending {
        Some(k) => SearchView { pending: None, best: if new_best { Some(k) } else { v.best }, ..v },
        None => v,
    }
}

/// The state after the caller reports a sweep's outcome: another sweep is
/// due when it `improved`, otherwise the search is done. Without an
/// outstanding outcome nothing changes.
pub open spec fn spec_report_sweep(v: SearchView, improved: bool) -> SearchView {
    if v.awaiting_outcome {
        SearchView {
            awaiting_outcome: false,
            stage: if improved { SearchStage::Between } else { SearchStage::Done },
            ..v
        }
    } else {
        v
    }
}

fn contains_key(v: &Vec<Key>, k: Key) -> (r: bool)
    ensures
        r == v@.contains(k),
{
    let mut i: usize = 0;
    while i < v.len()
        invariant
            i <= v.len(),
            forall|j: int| 0 <= j < i ==> v@[j] != k,
        decreases v.len() - i,
    {
        if v[i] == k {
            return true;
        }
        i = i + 1;
    }
    false
}

impl AutoSearch {
    /// The cursor is within the queue, and a best model exists once a sweep
    /// can start or has started.
    pub closed spec fn wf(&self) -> bool {
        &&& self.cursor <= self.queue.len()
        &&& (self.stage == SearchStage::Sweep || self.stage == SearchStage::Between) ==> self.best is Some
        &&& self.awaiting_outcome ==> self.best is Some
    }

    /// A search with the chosen differencing orders `d` and `big_d`
    /// (`D`, zero for a non-seasonal search), at the start of its slate.
    pub fn new(opts: AutoArimaOpts, d: u32, big_d: u32) -> (r: Self)
        ensures
            r.wf(),
            search_inv(r@),
            r@.opts == opts,
            r@.d == d,
            r@.big_d == big_d,
            r@.initial_constant == spec_initial_constant(opts, d, big_d),
            opts.include_constant matches Some(c) ==> r@.initial_constant == c,
            opts.include_constant is None ==> (r@.initial_constant <==> d + big_d <= 1),
            r@.tried == Seq::<Key>::empty(),
            r@.best is None,
            r@.queue == spec_slate(opts, d, big_d, spec_initial_constant(opts, d, big_d)),
            opts.include_constant is None ==> forall|i: int| 0 <= i < r@.queue.len()
                ==> (#[trigger] r@.queue[i]).p + r@.queue[i].big_p <= 6 && r@.queue[i].q + r@.queue[i].big_q <= 6
                    && !(r@.queue[i].include_constant && r@.queue[i].d + r@.queue[i].big_d >= 2),
            r@.cursor == 0,
            r@.stage == SearchStage::Slate,
            r@.sweeps == 0,
            r@.pending is None,
            !r@.awaiting_outcome,
    {
        let c: bool = match opts.include_constant {
            Some(c) => c,
            None => (d as u64) + (big_d as u64) < 2,
        };
        let mut queue: Vec<Key> = Vec::new();
        if opts.seasonal_period >= 2 {
            push_slate_entry(&mut queue, &opts, d, big_d, c, 2, 2, 1, 1);
            push_slate_entry(&mut queue, &opts, d, big_d, c, 0, 0, 0, 0);
            push_slate_entry(&mut queue, &opts, d, big_d, c, 1, 0, 1, 0);
            push_slate_entry(&mut queue, &opts, d, big_d, c, 0, 1, 0, 1);
        } else {
            push_slate_entry(&mut queue, &opts, d, big_d, c, 2, 2, 0, 0);
            push_slate_entry(&mut queue, &opts, d, big_d, c, 0, 0, 0, 0);
            push_slate_entry(&mut queue, &opts, d, big_d, c, 1, 0, 0, 0);
            push_slate_entry(&mut queue, &opts, d, big_d, c, 0, 1, 0, 0);
        }
        proof {
            assert(queue@ =~= spec_slate(opts, d, big_d, c));
        }
        let r = AutoSearch {
            opts,
            d,
            big_d,
            initial_constant: c,
            tried: Vec::new(),
            best: None,
            queue,
            cursor: 0,
            stage: SearchStage::Slate,
            sweeps: 0,
            pending: None,
            awaiting_outcome: false,
        };
        proof {
            let v = r@;
            if opts.include_constant is None {
                lemma_unpinned_slate_admissible(opts, d, big_d);
            }
            assert forall|i: int| 0 <= i < v.queue.len() implies conforms(v, #[trigger] v.queue[i]) by {
                assert(v.queue[i].d == d && v.queue[i].big_d == big_d && v.queue[i].include_constant == c);
            }
        }
        r
    }

    /// The options an ARIMA fit of candidate `k` uses: its orders, the
    /// seasonal period when the search is seasonal (`m >= 2`, else `0`),
    /// and the search's estimation method.
    pub fn candidate_opts(&self, k: Key) -> (r: ArimaOpts)
        ensures
            r.p == k.p && r.d == k.d && r.q == k.q,
            r.seasonal_p == k.big_p && r.seasonal_d == k.big_d && r.seasonal_q == k.big_q,
            r.seasonal_period == (if self@.opts.seasonal_period >= 2 { self@.opts.seasonal_period } else { 0 }),
            r.include_constant == k.include_constant,
            r.method == self@.opts.method,
    {
        ArimaOpts {
            p: k.p,
            d: k.d,
            q: k.q,
            seasonal_p: k.big_p,
            seasonal_d: k.big_d,
            seasonal_q: k.big_q,
            seasonal_period: if self.opts.seasonal_period >= 2 { self.opts.seasonal_period } else { 0 },
            include_constant: k.include_constant,
            method: self.opts.method,
        }
    }

    /// The best model reported so far.
    pub fn best(&self) -> (r: Option<Key>)
        ensures
            r == self@.best,
    {
        self.best
    }

    /// Decide the caller's next step (see `spec_next`).
    pub fn next_action(&mut self) -> (r: SearchAction)
        requires
            old(self).wf(),
        ensures
            final(self).wf(),
            (final(self)@, r) == spec_next(old(self)@),
    {
        if let Some(k) = self.pending {
            return SearchAction::Fit(k);
        }
        if self.awaiting_outcome {
            return SearchAction::EndSweep;
        }
        loop
            invariant
                self.wf(),
                self.pending is None,
                !self.awaiting_outcome,
                spec_next(self@) == spec_next(old(self)@),
            decreases stage_rank(self.stage), self.queue.len() - self.cursor,
        {
            if self.cursor < self.queue.len() {
                let k = self.queue[self.cursor];
                self.cursor = self.cursor + 1;
                let fresh = !contains_key(&self.tried, k);
                if fresh {
                    self.tried.push(k);
                }
                if fresh && is_admissible(k) {
                    self.pending = Some(k);
                    return SearchAction::Fit(k);
                }
            } else {
                match self.stage {
                    SearchStage::Slate => {
                        if self.best.is_none() {
                            self.stage = SearchStage::Fallback;
                            self.queue = vec![Key {
                                p: 0, d: self.d, q: 0, big_p: 0, big_d: self.big_d, big_q: 0,
                                include_constant: self.initial_constant,
                            }];
                            self.cursor = 0;
                            proof {
                                assert(self.queue@ =~= seq![fallback_key(self@)]);
                            }
                        } else {
                            return self.start_sweep();
                        }
                    },
                    SearchStage::Fallback => {
                        if self.best.is_none() {
                            self.stage = SearchStage::Done;
                            return SearchAction::Fail;
                        } else {
                            return self.start_sweep();
                        }
                    },
                    SearchStage::Sweep => {
                        self.awaiting_outcome = true;
                        return SearchAction::EndSweep;
                    },
                    SearchStage::Between => {
                        return self.start_sweep();
                    },
                    SearchStage::Done => {
                        return match self.best {
                            Some(k) => SearchAction::Finish(k),
                            None => SearchAction::Fail,
                        };
                    },
                }
            }
        }
    }

    fn start_sweep(&mut self) -> (r: SearchAction)
        requires
            old(self).wf(),
            old(self).best is Some,
        ensures
            final(self).wf(),
            (final(self)@, r) == spec_start_sweep(old(self)@),
    {
        let best = self.best.unwrap();
        if self.sweeps >= self.opts.max_iter {
            self.stage = SearchStage::Done;
            SearchAction::Finish(best)
        } else {
            self.stage = SearchStage::Sweep;
            self.queue = neighbours_of(best, self.opts.seasonal_period, &self.opts);
            self.cursor = 0;
            self.sweeps = self.sweeps + 1;
            SearchAction::BeginSweep
        }
    }

    /// Report the fit of the outstanding candidate (see `spec_report_fit`).
    pub fn report_fit(&mut self, new_best: bool)
        requires
            old(self).wf(),
        ensures
            final(self).wf(),
            final(self)@ == spec_report_fit(old(self)@, new_best),
    {
        if let Some(k) = self.pending {
            self.pending = None;
            if new_best {
                self.best = Some(k);
            }
        }
    }

    /// Report a sweep's outcome (see `spec_report_sweep`).
    pub fn report_sweep(&mut self, improved: bool)
        requires
            old(self).wf(),
        ensures
            final(self).wf(),
            final(self)@ == spec_report_sweep(old(self)@, improved),
    {
        if self.awaiting_outcome {
            self.awaiting_outcome = false;
            self.stage = if improved { SearchStage::Between } else { SearchStage::Done };
        }
    }
}


/// Candidate `k` belongs to search `v`: it has the search's differencing
/// orders, its orders are within the option bounds, its seasonal orders are
/// zero when the search is not seasonal, and its constant is the pinned one
/// when the options pin it.
pub open spec fn conforms(v: SearchView, k: Key) -> bool {
    &&& k.d == v.d
    &&& k.big_d == v.big_d
    &&& k.p <= v.opts.max_p
    &&& k.q <= v.opts.max_q
    &&& k.big_p <= v.opts.max_seasonal_p
    &&& k.big_q <= v.opts.max_seasonal_q
    &&& v.opts.seasonal_period < 2 ==> k.big_p == 0 && k.big_q == 0
    &&& v.opts.include_constant matches Some(c) ==> k.include_constant == c
}

pub open spec fn all_conform(v: SearchView, s: Seq<Key>) -> bool {
    forall|i: int| 0 <= i < s.len() ==> conforms(v, #[trigger] s[i])
}

/// The invariant of the search between calls.
pub open spec fn search_inv(v: SearchView) -> bool {
    &&& 0 <= v.cursor <= v.queue.len()
    &&& 0 <= v.sweeps <= v.opts.max_iter
    &&& (v.stage == SearchStage::Sweep || v.stage == SearchStage::Between || v.awaiting_outcome) ==> v.best is Some
    &&& v.awaiting_outcome ==> v.stage == SearchStage::Sweep && v.pending is None
    &&& (v.stage == SearchStage::Done || v.stage == SearchStage::Between || v.awaiting_outcome)
        ==> v.cursor == v.queue.len()
    &&& all_conform(v, v.queue)
    &&& v.best matches Some(b) ==> conforms(v, b) && v.tried.contains(b)
    &&& v.pending matches Some(k) ==> conforms(v, k) && admissible(k) && v.tried.contains(k)
    &&& v.opts.include_constant matches Some(c) ==> v.initial_constant == c
}

proof fn lemma_push_keeps(s: Seq<Key>, k: Key, x: Key)
    requires
        s.contains(x),
    ensures
        s.push(k).contains(x),
{
    let i = choose|i: int| 0 <= i < s.len() && s[i] == x;
    assert(s.push(k)[i] == x);
}

proof fn lemma_all_conform_concat(v: SearchView, a: Seq<Key>, b: Seq<Key>)
    requires
        all_conform(v, a),
        all_conform(v, b),
    ensures
        all_conform(v, a + b),
{
    assert forall|i: int| 0 <= i < (a + b).len() implies conforms(v, #[trigger] (a + b)[i]) by {
        if i < a.len() {
            assert((a + b)[i] == a[i]);
        } else {
            assert((a + b)[i] == b[i - a.len()]);
        }
    }
}

proof fn lemma_key_if_conforms(v: SearchView, c: bool, k: Key)
    requires
        c ==> conforms(v, k),
    ensures
        all_conform(v, key_if(c, k)),
{
}

proof fn lemma_neighbours_conform(v: SearchView, b: Key)
    requires
        conforms(v, b),
    ensures
        all_conform(v, spec_neighbours(b, v.opts.seasonal_period, v.opts)),
{
    let o = v.opts;
    lemma_key_if_conforms(v, b.p < o.max_p, Key { p: (b.p + 1) as u32, ..b });
    lemma_key_if_conforms(v, b.p > 0, Key { p: (b.p - 1) as u32, ..b });
    lemma_key_if_conforms(v, b.q < o.max_q, Key { q: (b.q + 1) as u32, ..b });
    lemma_key_if_conforms(v, b.q > 0, Key { q: (b.q - 1) as u32, ..b });
    let s1 = key_if(b.p < o.max_p, Key { p: (b.p + 1) as u32, ..b });
    let s2 = key_if(b.p > 0, Key { p: (b.p - 1) as u32, ..b });
    let s3 = key_if(b.q < o.max_q, Key { q: (b.q + 1) as u32, ..b });
    let s4 = key_if(b.q > 0, Key { q: (b.q - 1) as u32, ..b });
    lemma_all_conform_concat(v, s1, s2);
    lemma_all_conform_concat(v, s1 + s2, s3);
    lemma_all_conform_concat(v, s1 + s2 + s3, s4);
    let pq = spec_neighbours_pq(b, o);
    let sea = if o.seasonal_period >= 2 { spec_neighbours_seasonal(b, o) } else { Seq::empty() };
    if o.seasonal_period >= 2 {
        lemma_key_if_conforms(v, b.big_p < o.max_seasonal_p, Key { big_p: (b.big_p + 1) as u32, ..b });
        lemma_key_if_conforms(v, b.big_p > 0, Key { big_p: (b.big_p - 1) as u32, ..b });
        lemma_key_if_conforms(v, b.big_q < o.max_seasonal_q, Key { big_q: (b.big_q + 1) as u32, ..b });
        lemma_key_if_conforms(v, b.big_q > 0, Key { big_q: (b.big_q - 1) as u32, ..b });
        let t1 = key_if(b.big_p < o.max_seasonal_p, Key { big_p: (b.big_p + 1) as u32, ..b });
        let t2 = key_if(b.big_p > 0, Key { big_p: (b.big_p - 1) as u32, ..b });
        let t3 = key_if(b.big_q < o.max_seasonal_q, Key { big_q: (b.big_q + 1) as u32, ..b });
        let t4 = key_if(b.big_q > 0, Key { big_q: (b.big_q - 1) as u32, ..b });
        lemma_all_conform_concat(v, t1, t2);
        lemma_all_conform_concat(v, t1 + t2, t3);
        lemma_all_conform_concat(v, t1 + t2 + t3, t4);
    }
    let tog = key_if(o.include_constant is None, Key { include_constant: !b.include_constant, ..b });
    lemma_key_if_conforms(v, o.include_constant is None, Key { include_constant: !b.include_constant, ..b });
    lemma_all_conform_concat(v, pq, sea);
    lemma_all_conform_concat(v, pq + sea, tog);
}

/// Everything one call of `next_action` does, stated over the abstract
/// state: the invariant is kept; the considered candidates only grow, by
/// appending; the best model is unchanged; a newly handed-out candidate
/// was never considered before, is admissible and belongs to the search;
/// the search finishes with the best reported model, fails only when no
/// model was reported best, and ends each sweep by asking for its outcome.
pub proof fn lemma_next_action(v: SearchView)
    requires
        search_inv(v),
    ensures
        search_inv(spec_next(v).0),
        v.tried.len() <= spec_next(v).0.tried.len(),
        spec_next(v).0.tried.subrange(0, v.tried.len() as int) == v.tried,
        spec_next(v).0.best == v.best,
        spec_next(v).0.sweeps >= v.sweeps,
        match spec_next(v).1 {
            SearchAction::Fit(k) => {
                &&& spec_next(v).0.pending == Some(k)
                &&& spec_next(v).0.tried.contains(k)
                &&& admissible(k)
                &&& conforms(v, k)
                &&& v.pending is None ==> !v.tried.contains(k)
            },
            SearchAction::Finish(k) => v.best == Some(k) && spec_next(v).0.stage == SearchStage::Done,
            SearchAction::Fail => v.best is None && spec_next(v).0.stage == SearchStage::Done,
            SearchAction::EndSweep => spec_next(v).0.awaiting_outcome,
            SearchAction::BeginSweep => {
                &&& spec_next(v).0.stage == SearchStage::Sweep
                &&& spec_next(v).0.sweeps == v.sweeps + 1
                &&& spec_next(v).0.queue == spec_neighbours(v.best->0, v.opts.seasonal_period, v.opts)
                &&& spec_next(v).0.cursor == 0
            },
        },
    decreases stage_rank(v.stage), v.queue.len() - v.cursor,
{
    if v.pending is Some {
    } else if v.awaiting_outcome {
    } else if 0 <= v.cursor < v.queue.len() {
        let k = v.queue[v.cursor];
        let fresh = !v.tried.contains(k);
        let v1 = SearchView {
            cursor: v.cursor + 1,
            tried: if fresh { v.tried.push(k) } else { v.tried },
            ..v
        };
        assert(conforms(v, k));
        if fresh {
            assert(v1.tried.subrange(0, v.tried.len() as int) =~= v.tried);
            assert(v1.tried[v.tried.len() as int] == k);
            if v.best is Some {
                lemma_push_keeps(v.tried, k, v.best->0);
            }
        }
        assert(search_inv(v1));
        if fresh && admissible(k) {
        } else {
            lemma_next_action(v1);
            let v2 = spec_next(v1).0;
            assert(v2.tried.subrange(0, v.tried.len() as int)
                =~= v2.tried.subrange(0, v1.tried.len() as int).subrange(0, v.tried.len() as int));
        }
    } else {
        match v.stage {
            SearchStage::Slate => if v.best is None {
                let vf = SearchView {
                    stage: SearchStage::Fallback,
                    queue: seq![fallback_key(v)],
                    cursor: 0,
                    ..v
                };
                assert(conforms(v, fallback_key(v)));
                assert(search_inv(vf));
                lemma_next_action(vf);
            } else {
                lemma_neighbours_conform(v, v.best->0);
                assert(v.tried.subrange(0, v.tried.len() as int) =~= v.tried);
            },
            SearchStage::Fallback => {
                if v.best is Some {
                    lemma_neighbours_conform(v, v.best->0);
                }
                assert(v.tried.subrange(0, v.tried.len() as int) =~= v.tried);
            },
            SearchStage::Between => {
                lemma_neighbours_conform(v, v.best->0);
                assert(v.tried.subrange(0, v.tried.len() as int) =~= v.tried);
            },
            _ => {
                assert(v.tried.subrange(0, v.tried.len() as int) =~= v.tried);
            },
        }
    }
}


/// Reporting a fit keeps the invariant and the considered candidates; the
/// outstanding candidate becomes the best model exactly when it was
/// reported as the new best.
pub proof fn lemma_report_fit(v: SearchView, new_best: bool)
    requires
        search_inv(v),
    ensures
        search_inv(spec_report_fit(v, new_best)),
        spec_report_fit(v, new_best).tried == v.tried,
        spec_report_fit(v, new_best).pending is None,
        spec_report_fit(v, new_best).best == (if new_best && v.pending is Some { v.pending } else { v.best }),
{
}

/// Reporting a outcome keeps the invariant and the considered candidates.
pub proof fn lemma_report_sweep(v: SearchView, improved: bool)
    requires
        search_inv(v),
    ensures
        search_inv(spec_report_sweep(v, improved)),
        spec_report_sweep(v, improved).tried == v.tried,
        spec_report_sweep(v, improved).best == v.best,
        !spec_report_sweep(v, improved).awaiting_outcome,
{
}

/// Order of the stages within one round of sweeps.
pub open spec fn stage_order(s: SearchStage) -> int {
    match s {
        SearchStage::Slate => 4,
        SearchStage::Fallback => 3,
        SearchStage::Sweep => 2,
        SearchStage::Between => 1,
        SearchStage::Done => 0,
    }
}

/// One round of the protocol: the next action, followed by the caller's
/// report (`answer`) when the action asks for one.
pub open spec fn search_round(v: SearchView, answer: bool) -> SearchView {
    let (v1, a) = spec_next(v);
    match a {
        SearchAction::Fit(_) => spec_report_fit(v1, answer),
        SearchAction::EndSweep => spec_report_sweep(v1, answer),
        _ => v1,
    }
}

/// `a` is strictly closer to the end of the search than `b`: fewer sweeps
/// left, or as many and an earlier stage, or the same stage and fewer
/// candidates left in it.
pub open spec fn progress_lt(a: SearchView, b: SearchView) -> bool {
    let sa = a.opts.max_iter - a.sweeps;
    let sb = b.opts.max_iter - b.sweeps;
    ||| sa < sb
    ||| sa == sb && stage_order(a.stage) < stage_order(b.stage)
    ||| sa == sb && a.stage == b.stage && a.queue.len() - a.cursor < b.queue.len() - b.cursor
}

proof fn lemma_next_moves(v: SearchView)
    requires
        search_inv(v),
        v.pending is None,
        !v.awaiting_outcome,
    ensures
        spec_next(v).0.opts == v.opts,
        !(spec_next(v).1 is Fit) ==> spec_next(v).0.pending is None,
        !(spec_next(v).1 is EndSweep) ==> !spec_next(v).0.awaiting_outcome,
        match spec_next(v).1 {
            SearchAction::Fit(_) => {
                ||| spec_next(v).0.sweeps == v.sweeps && spec_next(v).0.stage == v.stage
                    && spec_next(v).0.queue == v.queue && spec_next(v).0.cursor > v.cursor
                ||| spec_next(v).0.sweeps == v.sweeps && v.stage == SearchStage::Slate
                    && spec_next(v).0.stage == SearchStage::Fallback
            },
            SearchAction::EndSweep => spec_next(v).0.sweeps == v.sweeps
                && v.stage == SearchStage::Sweep && spec_next(v).0.stage == SearchStage::Sweep,
            SearchAction::BeginSweep => spec_next(v).0.sweeps == v.sweeps + 1,
            _ => spec_next(v).0.stage == SearchStage::Done,
        },
    decreases stage_rank(v.stage), v.queue.len() - v.cursor,
{
    if 0 <= v.cursor < v.queue.len() {
        let k = v.queue[v.cursor];
        let fresh = !v.tried.contains(k);
        let v1 = SearchView {
            cursor: v.cursor + 1,
            tried: if fresh { v.tried.push(k) } else { v.tried },
            ..v
        };
        assert(conforms(v, k));
        if fresh && v.best is Some {
            lemma_push_keeps(v.tried, k, v.best->0);
        }
        assert(search_inv(v1));
        if !(fresh && admissible(k)) {
            lemma_next_moves(v1);
        }
    } else if v.stage == SearchStage::Slate && v.best is None {
        let vf = SearchView {
            stage: SearchStage::Fallback,
            queue: seq![fallback_key(v)],
            cursor: 0,
            ..v
        };
        assert(conforms(v, fallback_key(v)));
        assert(search_inv(vf));
        lemma_next_moves(vf);
    }
}

/// The search ends: every round that neither finishes nor fails brings the
/// state strictly closer to the end (a well-founded order, since sweeps are
/// capped by `max_iter` and every stage has finitely many candidates), and
/// a finishing or failing round leaves the search done, repeating its last
/// answer.
pub proof fn lemma_search_terminates(v: SearchView, answer: bool)
    requires
        search_inv(v),
        v.pending is None,
        !v.awaiting_outcome,
    ensures
        search_inv(search_round(v, answer)),
        search_round(v, answer).pending is None,
        !search_round(v, answer).awaiting_outcome,
        search_round(v, answer).opts == v.opts,
        0 <= search_round(v, answer).opts.max_iter - search_round(v, answer).sweeps,
        0 <= search_round(v, answer).queue.len() - search_round(v, answer).cursor,
        match spec_next(v).1 {
            SearchAction::Finish(k) => search_round(v, answer).stage == SearchStage::Done
                && spec_next(search_round(v, answer)).1 == SearchAction::Finish(k),
            SearchAction::Fail => search_round(v, answer).stage == SearchStage::Done
                && spec_next(search_round(v, answer)).1 == SearchAction::Fail,
            _ => progress_lt(search_round(v, answer), v),
        },
{
    lemma_next_action(v);
    lemma_next_moves(v);
    let v1 = spec_next(v).0;
    match spec_next(v).1 {
        SearchAction::Fit(_) => {
            lemma_report_fit(v1, answer);
        },
        SearchAction::EndSweep => {
            lemma_report_sweep(v1, answer);
        },
        SearchAction::Finish(k) => {
            lemma_done_is_stable(v1);
        },
        SearchAction::Fail => {
            lemma_done_is_stable(v1);
        },
        _ => {},
    }
}

proof fn lemma_done_is_stable(v: SearchView)
    requires
        search_inv(v),
        v.stage == SearchStage::Done,
        v.pending is None,
        !v.awaiting_outcome,
    ensures
        spec_next(v).1 == (match v.best { Some(k) => SearchAction::Finish(k), None => SearchAction::Fail }),
        spec_next(v).0.stage == SearchStage::Done,
{
}

} // verus!
