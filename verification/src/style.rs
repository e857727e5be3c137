//! Palettes and their rotation.
//!
//! Rotation exists to stop the ring becoming invisible through familiarity:
//! selection never repeats the current palette or a recent one, and never
//! picks one the user switched off.

use vstd::prelude::*;

use crate::text::{lower, lowercase, push_char, same_text};

verus! {

/// A ring colour scheme, as authored: three sRGB colours written `0xRRGGBB`,
/// for the two band colours and the glow.
#[derive(Clone, Copy, Debug, PartialEq)]
pub struct Palette {
    pub name: &'static str,
    pub a: u32,
    pub b: u32,
    pub glow: u32,
}

/// The lower-case hex digit for `d < 16`.
pub open spec fn hex_digit(d: u32) -> char {
    if d < 10 {
        ((d + 48) as u8) as char
    } else {
        ((d + 87) as u8) as char
    }
}

/// `#rrggbb` for the low 24 bits of `v`, lower case.
pub open spec fn hex_text(v: u32) -> Seq<char> {
    seq![
        '#',
        hex_digit((v >> 20u32) & 0xF),
        hex_digit((v >> 16u32) & 0xF),
        hex_digit((v >> 12u32) & 0xF),
        hex_digit((v >> 8u32) & 0xF),
        hex_digit((v >> 4u32) & 0xF),
        hex_digit(v & 0xF),
    ]
}

proof fn lemma_hex_text_at(v: u32, k: u32)
    requires
        k < 6,
    ensures
        hex_text(v).len() == 7,
        hex_text(v)[0] == '#',
        hex_text(v)[k + 1] == hex_digit((v >> ((20 - 4 * k) as u32)) & 0xF),
{
    if k == 0 {
    } else if k == 1 {
    } else if k == 2 {
    } else if k == 3 {
    } else if k == 4 {
    } else {
        assert(v >> 0u32 == v) by (bit_vector);
    }
}

fn digit_char(d: u32) -> (c: char)
    requires
        d < 16,
    ensures
        c == hex_digit(d),
{
    if d < 10 {
        ((d + 48) as u8) as char
    } else {
        ((d + 87) as u8) as char
    }
}

/// `format!("#{:06x}", v & 0xFFFFFF)`.
pub fn hex_string(v: u32) -> (s: String)
    ensures
        s@ == hex_text(v),
{
    let mut s = String::new();
    push_char(&mut s, '#');
    let mut k: u32 = 0;
    proof {
        lemma_hex_text_at(v, 0);
    }
    while k < 6
        invariant
            k <= 6,
            s@.len() == k + 1,
            forall|i: int| 0 <= i <= k ==> #[trigger] s@[i] == hex_text(v)[i],
        decreases 6 - k,
    {
        let shift: u32 = 20 - 4 * k;
        let d = (v >> shift) & 0xF;
        assert(d < 16) by (bit_vector)
            requires
                d == (v >> shift) & 0xF,
        ;
        proof {
            lemma_hex_text_at(v, k);
        }
        push_char(&mut s, digit_char(d));
        k = k + 1;
    }
    assert(s@ =~= hex_text(v));
    s
}

impl Palette {
    /// The three authored colours as `#rrggbb`, so a swatch a panel draws is
    /// the colour the ring actually uses.
    pub fn hex_strings(&self) -> (h: [String; 3])
        ensures
            h[0]@ == hex_text(self.a),
            h[1]@ == hex_text(self.b),
            h[2]@ == hex_text(self.glow),
    {
        [hex_string(self.a), hex_string(self.b), hex_string(self.glow)]
    }
}

/// The ten palettes, in order: name, band colours, glow. All high-chroma and
/// bright, because the ring has to win against arbitrary window content.
pub open spec fn palette_table() -> Seq<(Seq<char>, u32, u32, u32)> {
    seq![
        ("Ember"@, 0xFF3D00u32, 0xFFC400u32, 0xFF6D00u32),
        ("Plasma"@, 0x7C4DFFu32, 0x00E5FFu32, 0x536DFEu32),
        ("Toxic"@, 0x76FF03u32, 0x00E676u32, 0xB2FF59u32),
        ("Magma"@, 0xD50000u32, 0xFF6E40u32, 0xFF1744u32),
        ("Ice"@, 0x18FFFFu32, 0x82B1FFu32, 0x40C4FFu32),
        ("Neon Rose"@, 0xFF4081u32, 0xF50057u32, 0xFF80ABu32),
        ("Solar"@, 0xFFD600u32, 0xFFAB00u32, 0xFFEA00u32),
        ("Aurora"@, 0x00E676u32, 0x00B0FFu32, 0x1DE9B6u32),
        ("Ultraviolet"@, 0xE040FBu32, 0x651FFFu32, 0xAA00FFu32),
        ("Copper"@, 0xFF9100u32, 0xFFD180u32, 0xFF6D00u32),
    ]
}

pub open spec fn matches_table(p: Palette, row: (Seq<char>, u32, u32, u32)) -> bool {
    p.name@ == row.0 && p.a == row.1 && p.b == row.2 && p.glow == row.3
}

/// The ten palettes, as the table lists them.
pub fn palettes() -> (v: Vec<Palette>)
    ensures
        v@.len() == palette_table().len(),
        forall|i: int| 0 <= i < v@.len() ==> #[trigger] matches_table(v@[i], palette_table()[i]),
{
    let v = vec![
        Palette { name: "Ember", a: 0xFF3D00, b: 0xFFC400, glow: 0xFF6D00 },
        Palette { name: "Plasma", a: 0x7C4DFF, b: 0x00E5FF, glow: 0x536DFE },
        Palette { name: "Toxic", a: 0x76FF03, b: 0x00E676, glow: 0xB2FF59 },
        Palette { name: "Magma", a: 0xD50000, b: 0xFF6E40, glow: 0xFF1744 },
        Palette { name: "Ice", a: 0x18FFFF, b: 0x82B1FF, glow: 0x40C4FF },
        Palette { name: "Neon Rose", a: 0xFF4081, b: 0xF50057, glow: 0xFF80AB },
        Palette { name: "Solar", a: 0xFFD600, b: 0xFFAB00, glow: 0xFFEA00 },
        Palette { name: "Aurora", a: 0x00E676, b: 0x00B0FF, glow: 0x1DE9B6 },
        Palette { name: "Ultraviolet", a: 0xE040FB, b: 0x651FFF, glow: 0xAA00FF },
        Palette { name: "Copper", a: 0xFF9100, b: 0xFFD180, glow: 0xFF6D00 },
    ];
    assert forall|i: int| 0 <= i < v@.len() implies #[trigger] matches_table(
        v@[i],
        palette_table()[i],
    ) by {
        if i == 0 {
        } else if i == 1 {
        } else if i == 2 {
        } else if i == 3 {
        } else if i == 4 {
        } else if i == 5 {
        } else if i == 6 {
        } else if i == 7 {
        } else if i == 8 {
        } else {
        }
    }
    v
}

// ---------------------------------------------------------------------------

/// The multiplier of xorshift64*.
pub const XORSHIFT_STAR: u64 = 0x2545_F491_4F6C_DD1D;

/// One xorshift64 step.
pub open spec fn xorshift(x: u64) -> u64 {
    let a = x ^ (x >> 12u64);
    let b = a ^ (a << 25u64);
    b ^ (b >> 27u64)
}

/// What `next_usize` hands out from the advanced state `x`: the high half of
/// the xorshift64* product, reduced below `bound`, or below 1 when `bound` is 0.
pub open spec fn draw(x: u64, bound: usize) -> usize {
    let wide = (x.wrapping_mul(XORSHIFT_STAR) >> 32u64) as usize;
    wide % (if bound == 0 { 1 } else { bound })
}

/// Small deterministic generator, so palette selection can be tested. Not
/// cryptographic and does not need to be.
pub struct Rng(u64);

impl View for Rng {
    type V = u64;

    closed spec fn view(&self) -> u64 {
        self.0
    }
}

impl Rng {
    /// Seeded generator; the state is never zero, which xorshift could not
    /// leave.
    pub fn new(seed: u64) -> (r: Self)
        ensures
            r@ == seed | 1,
    {
        Rng(seed | 1)
    }

    /// A number below `bound`, or 0 when `bound` is 0 or 1.
    pub fn next_usize(&mut self, bound: usize) -> (n: usize)
        ensures
            final(self)@ == xorshift(old(self)@),
            n == draw(xorshift(old(self)@), bound),
            bound > 0 ==> n < bound,
            bound == 0 ==> n == 0,
    {
        self.0 = self.0 ^ (self.0 >> 12u64);
        self.0 = self.0 ^ (self.0 << 25u64);
        self.0 = self.0 ^ (self.0 >> 27u64);
        let wide = (self.0.wrapping_mul(XORSHIFT_STAR) >> 32u64) as usize;
        let modulus = if bound == 0 {
            1
        } else {
            bound
        };
        wide % modulus
    }
}

/// The numbers `next_usize` hands out, one per bound in turn, from a
/// generator whose state is `x`.
pub open spec fn draws_from(x: u64, bounds: Seq<usize>) -> Seq<usize>
    decreases bounds.len(),
{
    if bounds.len() == 0 {
        Seq::empty()
    } else {
        seq![draw(xorshift(x), bounds[0])] + draws_from(xorshift(x), bounds.drop_first())
    }
}

/// A generator is a function of its seed alone, and an even seed acts as the
/// odd one above it: two generators made from `seed` and from `seed | 1` hand
/// out the same numbers for the same bounds. Its state is never zero, so it
/// never sticks at xorshift's fixed point.
pub proof fn law_same_seed_same_draws(seed: u64, bounds: Seq<usize>)
    ensures
        draws_from(seed | 1, bounds) == draws_from((seed | 1) | 1, bounds),
        seed | 1 != 0,
{
    assert((seed | 1) | 1 == seed | 1 && seed | 1 != 0) by (bit_vector);
}

/// A step of the generator from a state that is not zero never reaches zero.
pub proof fn law_generator_never_sticks(x: u64)
    requires
        x != 0,
    ensures
        xorshift(x) != 0,
{
    assert(x != 0 ==> xorshift(x) != 0) by (bit_vector);
}

// ---------------------------------------------------------------------------

/// How many recent palettes may not be reused. With ten to choose from,
/// avoiding the last three keeps the sequence from feeling like it has
/// favourites.
pub const RECENT_MEMORY: usize = 3;

/// The last `m` elements of `s`, or all of it when it is shorter.
pub open spec fn keep_last(s: Seq<usize>, m: nat) -> Seq<usize> {
    if s.len() > m {
        s.skip(s.len() - m)
    } else {
        s
    }
}

/// `s` with `last` at its end, added unless it is already there.
pub open spec fn ending_with(s: Seq<usize>, last: usize) -> Seq<usize> {
    if s.len() > 0 && s.last() == last {
        s
    } else {
        s.push(last)
    }
}

/// The elements of `s` below `n`, in order.
pub open spec fn below(s: Seq<usize>, n: nat) -> Seq<usize>
    decreases s.len(),
{
    if s.len() == 0 {
        s
    } else {
        let p = below(s.drop_last(), n);
        if s.last() < n {
            p.push(s.last())
        } else {
            p
        }
    }
}

/// Rotates the colour scheme.
///
/// Selection avoids the current palette and recent ones, and never uses one
/// switched off; recency is the rule that gives way when choices run short.
/// The cross-fade between schemes is the renderer's, which is told when a
/// transition happens.
pub struct Rotator {
    available: Vec<Palette>,
    current: usize,
    recent: Vec<usize>,
    disabled: Vec<String>,
}

/// What a [`Rotator`] holds.
pub struct RotatorView {
    pub available: Seq<Palette>,
    pub current: usize,
    pub recent: Seq<usize>,
    /// The names switched off, as the user wrote them.
    pub disabled: Seq<Seq<char>>,
}

impl View for Rotator {
    type V = RotatorView;

    closed spec fn view(&self) -> RotatorView {
        RotatorView {
            available: self.available@,
            current: self.current,
            recent: self.recent@,
            disabled: self.disabled@.map_values(|d: String| d@),
        }
    }
}

impl RotatorView {
    /// The current index is a palette (or 0 when there are none), and the
    /// recent ones are palettes, at most [`RECENT_MEMORY`] of them: the last
    /// ones shown, ending with the current one.
    pub open spec fn wf(self) -> bool {
        &&& self.available.len() <= usize::MAX
        &&& (self.available.len() == 0 ==> self.current == 0)
        &&& (self.available.len() > 0 ==> self.current < self.available.len())
        &&& self.recent.len() <= RECENT_MEMORY
        &&& forall|i: int| 0 <= i < self.recent.len() ==> self.recent[i] < self.available.len()
        &&& (self.available.len() > 0 ==> self.recent.len() > 0 && self.recent.last()
            == self.current)
    }

    /// Palette `i` is one the user has switched off; names match regardless
    /// of ASCII case.
    pub open spec fn is_disabled(self, i: int) -> bool {
        exists|j: int|
            0 <= j < self.disabled.len() && lower(#[trigger] self.disabled[j]) == lower(
                self.available[i].name@,
            )
    }

    /// Palette `i` may be moved to at all: it is not the current one and not
    /// switched off.
    pub open spec fn eligible(self, i: int) -> bool {
        0 <= i < self.available.len() && i != self.current && !self.is_disabled(i)
    }

    /// Eligible, and not used recently either.
    pub open spec fn fresh(self, i: int) -> bool {
        self.eligible(i) && !self.recent.contains(i as usize)
    }

    /// The eligible indices below `n`, in order.
    pub open spec fn eligible_upto(self, n: nat) -> Seq<usize>
        decreases n,
    {
        if n == 0 {
            Seq::empty()
        } else {
            let p = self.eligible_upto((n - 1) as nat);
            if self.eligible(n - 1) {
                p.push((n - 1) as usize)
            } else {
                p
            }
        }
    }

    /// The fresh indices below `n`, in order.
    pub open spec fn fresh_upto(self, n: nat) -> Seq<usize>
        decreases n,
    {
        if n == 0 {
            Seq::empty()
        } else {
            let p = self.fresh_upto((n - 1) as nat);
            if self.fresh(n - 1) {
                p.push((n - 1) as usize)
            } else {
                p
            }
        }
    }

    /// What the next pick chooses among: the fresh palettes, or when there
    /// are none, every eligible one.
    pub open spec fn candidates(self) -> Seq<usize> {
        let fresh = self.fresh_upto(self.available.len());
        if fresh.len() > 0 {
            fresh
        } else {
            self.eligible_upto(self.available.len())
        }
    }

    /// Whether a pick draws from the generator at all.
    pub open spec fn pick_draws(self) -> bool {
        self.available.len() > 1 && self.candidates().len() > 0
    }

    /// The palette the next pick chooses with generator state `rng`.
    pub open spec fn pick(self, rng: u64) -> usize {
        if self.pick_draws() {
            self.candidates()[draw(xorshift(rng), self.candidates().len() as usize) as int]
        } else {
            self.current
        }
    }

    /// After moving to `index`; nothing changes when it is the current
    /// palette or not a palette at all.
    pub open spec fn after_transition(self, index: usize) -> RotatorView {
        if index == self.current || index >= self.available.len() {
            self
        } else {
            RotatorView {
                current: index,
                recent: keep_last(self.recent.push(index), RECENT_MEMORY as nat),
                ..self
            }
        }
    }

    /// `i` is the first palette called `name`, regardless of ASCII case.
    pub open spec fn first_named(self, name: Seq<char>, i: int) -> bool {
        &&& 0 <= i < self.available.len()
        &&& lower(self.available[i].name@) == lower(name)
        &&& forall|j: int|
            0 <= j < i ==> lower(#[trigger] self.available[j].name@) != lower(name)
    }

    pub open spec fn has_named(self, name: Seq<char>) -> bool {
        exists|i: int|
            0 <= i < self.available.len() && lower(#[trigger] self.available[i].name@) == lower(
                name,
            )
    }

    /// After restoring a remembered position: the index when it is a
    /// palette, and the last few remembered recent ones that are palettes,
    /// ending with the one now current, since that is the one on screen.
    pub open spec fn after_restore(self, index: usize, recent: Seq<usize>) -> RotatorView {
        let current = if index < self.available.len() {
            index
        } else {
            self.current
        };
        RotatorView {
            current,
            recent: if self.available.len() == 0 {
                Seq::empty()
            } else {
                keep_last(
                    ending_with(below(recent, self.available.len()), current),
                    RECENT_MEMORY as nat,
                )
            },
            ..self
        }
    }
}

proof fn lemma_eligible_upto(v: RotatorView, n: nat)
    requires
        n <= usize::MAX,
    ensures
        v.eligible_upto(n).len() <= n,
        forall|k: int|
            0 <= k < v.eligible_upto(n).len() ==> {
                let i = #[trigger] v.eligible_upto(n)[k];
                i < n && v.eligible(i as int)
            },
        forall|i: int| 0 <= i < n && v.eligible(i) ==> v.eligible_upto(n).contains(i as usize),
    decreases n,
{
    if n > 0 {
        lemma_eligible_upto(v, (n - 1) as nat);
        let p = v.eligible_upto((n - 1) as nat);
        let q = v.eligible_upto(n);
        if v.eligible(n - 1) {
            assert(q == p.push((n - 1) as usize));
        } else {
            assert(q == p);
        }
        assert forall|k: int| 0 <= k < q.len() implies #[trigger] q[k] < n && v.eligible(
            q[k] as int,
        ) by {
            if k < p.len() {
                assert(q[k] == p[k]);
            }
        }
        assert forall|i: int| 0 <= i < n && v.eligible(i) implies v.eligible_upto(n).contains(
            i as usize,
        ) by {
            if i < n - 1 {
                let k = choose|k: int| 0 <= k < p.len() && p[k] == i as usize;
                if v.eligible(n - 1) {
                    assert(p.push((n - 1) as usize)[k] == i as usize);
                }
            } else {
                assert(p.push((n - 1) as usize)[p.len() as int] == i as usize);
            }
        }
    }
}

proof fn lemma_fresh_upto(v: RotatorView, n: nat)
    requires
        n <= usize::MAX,
    ensures
        v.fresh_upto(n).len() <= n,
        forall|k: int|
            0 <= k < v.fresh_upto(n).len() ==> {
                let i = #[trigger] v.fresh_upto(n)[k];
                i < n && v.fresh(i as int)
            },
        forall|i: int| 0 <= i < n && v.fresh(i) ==> v.fresh_upto(n).contains(i as usize),
    decreases n,
{
    if n > 0 {
        lemma_fresh_upto(v, (n - 1) as nat);
        let p = v.fresh_upto((n - 1) as nat);
        let q = v.fresh_upto(n);
        if v.fresh(n - 1) {
            assert(q == p.push((n - 1) as usize));
        } else {
            assert(q == p);
        }
        assert forall|k: int| 0 <= k < q.len() implies #[trigger] q[k] < n && v.fresh(
            q[k] as int,
        ) by {
            if k < p.len() {
                assert(q[k] == p[k]);
            }
        }
        assert forall|i: int| 0 <= i < n && v.fresh(i) implies v.fresh_upto(n).contains(
            i as usize,
        ) by {
            if i < n - 1 {
                let k = choose|k: int| 0 <= k < p.len() && p[k] == i as usize;
                if v.fresh(n - 1) {
                    assert(p.push((n - 1) as usize)[k] == i as usize);
                }
            } else {
                assert(p.push((n - 1) as usize)[p.len() as int] == i as usize);
            }
        }
    }
}

proof fn lemma_upto_increasing(v: RotatorView, n: nat)
    requires
        n <= usize::MAX,
    ensures
        forall|a: int, b: int|
            0 <= a < b < v.fresh_upto(n).len() ==> v.fresh_upto(n)[a] < v.fresh_upto(n)[b],
        forall|a: int, b: int|
            0 <= a < b < v.eligible_upto(n).len() ==> v.eligible_upto(n)[a]
                < v.eligible_upto(n)[b],
    decreases n,
{
    if n > 0 {
        let m = (n - 1) as nat;
        lemma_upto_increasing(v, m);
        lemma_fresh_upto(v, m);
        lemma_eligible_upto(v, m);
        let p = v.fresh_upto(m);
        let q = v.eligible_upto(m);
        if v.fresh(n - 1) {
            assert forall|a: int, b: int|
                0 <= a < b < v.fresh_upto(n).len() implies v.fresh_upto(n)[a]
                < v.fresh_upto(n)[b] by {
                assert(v.fresh_upto(n) == p.push(m as usize));
                if b == p.len() {
                    assert(p[a] < m);
                }
            }
        }
        if v.eligible(n - 1) {
            assert forall|a: int, b: int|
                0 <= a < b < v.eligible_upto(n).len() implies v.eligible_upto(n)[a]
                < v.eligible_upto(n)[b] by {
                assert(v.eligible_upto(n) == q.push(m as usize));
                if b == q.len() {
                    assert(q[a] < m);
                }
            }
        }
    }
}

/// A pick is a draw among the candidates, which stand in increasing order,
/// each once: the palette picked is the candidate at the position the
/// advanced generator draws, so two generator states give the same palette
/// exactly when they draw the same position, and each candidate is picked by
/// every state that draws its position.
pub proof fn law_pick_follows_the_draw(v: RotatorView, r1: u64, r2: u64)
    requires
        v.wf(),
        v.available.len() > 1,
        v.candidates().len() > 0,
    ensures
        forall|a: int, b: int|
            0 <= a < b < v.candidates().len() ==> v.candidates()[a] < v.candidates()[b],
        ({
            let n = v.candidates().len() as usize;
            &&& draw(xorshift(r1), n) < n
            &&& v.pick(r1) == v.candidates()[draw(xorshift(r1), n) as int]
            &&& (v.pick(r1) == v.pick(r2)) <==> (draw(xorshift(r1), n) == draw(xorshift(r2), n))
        }),
{
    let len = v.available.len();
    lemma_upto_increasing(v, len);
    lemma_fresh_upto(v, len);
    lemma_eligible_upto(v, len);
    let c = v.candidates();
    let n = c.len() as usize;
    let k1 = draw(xorshift(r1), n) as int;
    let k2 = draw(xorshift(r2), n) as int;
    assert(0 <= k1 < c.len());
    assert(0 <= k2 < c.len());
    if k1 < k2 {
        assert(c[k1] < c[k2]);
    } else if k2 < k1 {
        assert(c[k2] < c[k1]);
    }
}

/// What a pick can choose: a palette that is not the current one and not
/// switched off, not a recent one while any other choice remains, and the
/// current one only when nothing else is eligible.
pub proof fn law_pick_obeys_the_rules(v: RotatorView, rng: u64)
    requires
        v.wf(),
    ensures
        v.available.len() > 0 ==> v.pick(rng) < v.available.len(),
        v.pick(rng) != v.current ==> v.eligible(v.pick(rng) as int),
        (exists|i: int| v.eligible(i)) && v.available.len() > 1 ==> v.pick(rng) != v.current,
        (exists|i: int| v.fresh(i)) ==> !v.recent.contains(v.pick(rng)),
{
    let n = v.available.len();
    lemma_eligible_upto(v, n);
    lemma_fresh_upto(v, n);
    let c = v.candidates();
    if v.pick_draws() {
        let k = draw(xorshift(rng), c.len() as usize) as int;
        assert(0 <= k < c.len());
        if v.fresh_upto(n).len() > 0 {
            assert(v.fresh(c[k] as int));
        } else {
            assert(v.eligible(c[k] as int));
            if exists|i: int| v.fresh(i) {
                let i = choose|i: int| v.fresh(i);
                assert(v.fresh_upto(n).contains(i as usize));
            }
        }
    } else {
        if (exists|i: int| v.eligible(i)) && n > 1 {
            let i = choose|i: int| v.eligible(i);
            assert(v.eligible_upto(n).contains(i as usize));
            if exists|j: int| v.fresh(j) {
                let j = choose|j: int| v.fresh(j);
                assert(v.fresh_upto(n).contains(j as usize));
            }
        }
    }
}

/// With nothing switched off and more palettes than [`RECENT_MEMORY`], a pick
/// is never the current palette nor one of the last [`RECENT_MEMORY`] shown,
/// the palette the rotation started at counting among them.
pub proof fn law_pick_avoids_the_last_shown(v: RotatorView, rng: u64)
    requires
        v.wf(),
        v.disabled.len() == 0,
        v.available.len() > RECENT_MEMORY,
    ensures
        !v.recent.contains(v.pick(rng)),
        v.pick(rng) != v.current,
{
    let r = v.recent;
    let w = if !r.contains(0) {
        0int
    } else if !r.contains(1) {
        1int
    } else if !r.contains(2) {
        2int
    } else {
        let j0 = choose|j: int| 0 <= j < r.len() && r[j] == 0;
        let j1 = choose|j: int| 0 <= j < r.len() && r[j] == 1;
        let j2 = choose|j: int| 0 <= j < r.len() && r[j] == 2;
        if r.contains(3) {
            let j3 = choose|j: int| 0 <= j < r.len() && r[j] == 3;
            assert(r[j0] != r[j1] && r[j0] != r[j2] && r[j1] != r[j2]);
            assert(r[j3] != r[j0] && r[j3] != r[j1] && r[j3] != r[j2]);
            assert(false);
        }
        3int
    };
    assert(!r.contains(w as usize));
    assert(!v.is_disabled(w));
    assert(w != v.current) by {
        assert(r[r.len() - 1] == v.current);
    }
    assert(v.fresh(w));
    law_pick_obeys_the_rules(v, rng);
    assert(v.recent.contains(v.current)) by {
        assert(r[r.len() - 1] == v.current);
    }
}

/// A transition remembers the palette it moved to, keeps at most
/// [`RECENT_MEMORY`] of them, and keeps the rotator well formed.
pub proof fn law_transition_remembers(v: RotatorView, index: usize)
    requires
        v.wf(),
    ensures
        v.after_transition(index).wf(),
        index != v.current && index < v.available.len() ==> {
            let w = v.after_transition(index);
            &&& w.current == index
            &&& w.recent.last() == index
            &&& w.recent.len() == if v.recent.len() < RECENT_MEMORY {
                (v.recent.len() + 1) as nat
            } else {
                RECENT_MEMORY as nat
            }
        },
{
    let w = v.after_transition(index);
    if index != v.current && index < v.available.len() {
        let s = v.recent.push(index);
        assert forall|i: int| 0 <= i < w.recent.len() implies w.recent[i] < v.available.len() by {
            if s.len() > RECENT_MEMORY {
                assert(w.recent[i] == s[i + s.len() - RECENT_MEMORY]);
            }
        }
    }
}

/// The generator's state after one pick.
pub open spec fn rng_after_pick(v: RotatorView, rng: u64) -> u64 {
    if v.pick_draws() {
        xorshift(rng)
    } else {
        rng
    }
}

/// A rotator and its generator after `n` steps of the timer: pick the next
/// palette, then move there.
pub open spec fn rotated(v: RotatorView, rng: u64, n: nat) -> (RotatorView, u64)
    decreases n,
{
    if n == 0 {
        (v, rng)
    } else {
        let (w, r) = rotated(v, rng, (n - 1) as nat);
        (w.after_transition(w.pick(r)), rng_after_pick(w, r))
    }
}

/// The palettes shown over those steps: the one started at, then each one
/// moved to, in order.
pub open spec fn shown(v: RotatorView, rng: u64, n: nat) -> Seq<usize>
    decreases n,
{
    if n == 0 {
        seq![v.current]
    } else {
        let (w, r) = rotated(v, rng, (n - 1) as nat);
        let p = w.pick(r);
        let s = shown(v, rng, (n - 1) as nat);
        if p != w.current && p < w.available.len() {
            s.push(p)
        } else {
            s
        }
    }
}

proof fn lemma_keep_last_push(s: Seq<usize>, x: usize, m: nat)
    requires
        m > 0,
    ensures
        keep_last(keep_last(s, m).push(x), m) == keep_last(s.push(x), m),
{
    let k = keep_last(s, m);
    let t = s.push(x);
    if s.len() > m {
        assert(keep_last(k.push(x), m) =~= keep_last(t, m)) by {
            assert forall|i: int| 0 <= i < m implies #[trigger] keep_last(k.push(x), m)[i]
                == keep_last(t, m)[i] by {
                if i < m - 1 {
                    assert(keep_last(k.push(x), m)[i] == k[i + 1]);
                    assert(k[i + 1] == s[i + 1 + s.len() - m]);
                }
            }
        }
    } else {
        assert(k == s);
    }
}

/// Every step keeps the rotator well formed, its palettes and the names
/// switched off as they were.
pub proof fn law_rotation_keeps_its_shape(v: RotatorView, rng: u64, n: nat)
    requires
        v.wf(),
    ensures
        rotated(v, rng, n).0.wf(),
        rotated(v, rng, n).0.available == v.available,
        rotated(v, rng, n).0.disabled == v.disabled,
    decreases n,
{
    if n > 0 {
        law_rotation_keeps_its_shape(v, rng, (n - 1) as nat);
        let (w, r) = rotated(v, rng, (n - 1) as nat);
        law_transition_remembers(w, w.pick(r));
    }
}

/// Started from a rotator whose only recent palette is the one it shows, as
/// [`Rotator::new`] makes one, the recent palettes are always the last
/// [`RECENT_MEMORY`] of those shown, and the current one is the last shown.
pub proof fn law_recent_are_the_last_shown(v: RotatorView, rng: u64, n: nat)
    requires
        v.wf(),
        v.available.len() > 0,
        v.recent == seq![v.current],
    ensures
        rotated(v, rng, n).0.recent == keep_last(shown(v, rng, n), RECENT_MEMORY as nat),
        rotated(v, rng, n).0.current == shown(v, rng, n).last(),
    decreases n,
{
    if n == 0 {
        assert(keep_last(seq![v.current], RECENT_MEMORY as nat) == seq![v.current]);
    } else {
        law_recent_are_the_last_shown(v, rng, (n - 1) as nat);
        law_rotation_keeps_its_shape(v, rng, (n - 1) as nat);
        let (w, r) = rotated(v, rng, (n - 1) as nat);
        let p = w.pick(r);
        let s = shown(v, rng, (n - 1) as nat);
        if p != w.current && p < w.available.len() {
            lemma_keep_last_push(s, p, RECENT_MEMORY as nat);
        }
    }
}

/// Over any number of timer steps from any rotator: with two or more
/// palettes and none switched off, a pick is never the current palette (so
/// two alternate); with one palette it is that one; a pick other than the
/// current one is never a palette switched off; and with more than
/// [`RECENT_MEMORY`] palettes and none switched off, it is never one of the
/// recent ones, which [`law_recent_are_the_last_shown`] says are the last
/// ones shown.
pub proof fn law_rotation_obeys_the_rules_throughout(v: RotatorView, rng: u64, n: nat)
    requires
        v.wf(),
    ensures
        ({
            let (w, r) = rotated(v, rng, n);
            let p = w.pick(r);
            &&& v.available.len() >= 2 && v.disabled.len() == 0 ==> p != w.current && p
                < v.available.len()
            &&& v.available.len() == 1 ==> p == 0
            &&& p != w.current ==> p < v.available.len() && !w.is_disabled(p as int)
            &&& v.disabled.len() == 0 && v.available.len() > RECENT_MEMORY ==> !w.recent.contains(
                p,
            )
        }),
{
    law_rotation_keeps_its_shape(v, rng, n);
    let (w, r) = rotated(v, rng, n);
    law_pick_obeys_the_rules(w, r);
    if v.available.len() >= 2 && v.disabled.len() == 0 {
        let other: int = if w.current == 0 {
            1
        } else {
            0
        };
        assert(!w.is_disabled(other));
        assert(w.eligible(other));
    }
    if v.disabled.len() == 0 && v.available.len() > RECENT_MEMORY {
        law_pick_avoids_the_last_shown(w, r);
    }
}

impl Rotator {
    #[verifier::type_invariant]
    closed spec fn well_formed(&self) -> bool {
        &&& (self.available@.len() == 0 ==> self.current == 0)
        &&& (self.available@.len() > 0 ==> self.current < self.available@.len())
        &&& self.recent@.len() <= RECENT_MEMORY
        &&& forall|i: int|
            0 <= i < self.recent@.len() ==> self.recent@[i] < self.available@.len()
        &&& (self.available@.len() > 0 ==> self.recent@.len() > 0 && self.recent@.last()
            == self.current)
    }

    /// Starts at `start`, or the last palette when `start` is past the end,
    /// with nothing switched off. The palette it starts at is the first one
    /// shown, so it counts as recent like every palette moved to later.
    pub fn new(available: Vec<Palette>, start: usize) -> (r: Self)
        ensures
            r@.available == available@,
            r@.current == if available@.len() == 0 {
                0
            } else if start < available@.len() {
                start
            } else {
                (available@.len() - 1) as usize
            },
            r@.recent == if available@.len() == 0 {
                Seq::<usize>::empty()
            } else {
                seq![r@.current]
            },
            r@.disabled.len() == 0,
    {
        let current = if available.len() == 0 {
            0
        } else if start < available.len() {
            start
        } else {
            available.len() - 1
        };
        let mut recent: Vec<usize> = Vec::new();
        if available.len() > 0 {
            recent.push(current);
        }
        let r = Rotator { available, current, recent, disabled: Vec::new() };
        assert(r@.disabled =~= Seq::<Seq<char>>::empty());
        r
    }

    /// The palette now in use.
    pub fn current(&self) -> (p: Palette)
        requires
            self@.available.len() > 0,
        ensures
            p == self@.available[self@.current as int],
    {
        proof {
            use_type_invariant(self);
        }
        self.available[self.current]
    }

    pub fn current_index(&self) -> (i: usize)
        ensures
            i == self@.current,
    {
        self.current
    }

    /// Every palette, in order.
    pub fn palettes(&self) -> (p: &[Palette])
        ensures
            p@ == self@.available,
    {
        self.available.as_slice()
    }

    /// The palettes moved to most recently, oldest first.
    pub fn recent(&self) -> (r: &[usize])
        ensures
            r@ == self@.recent,
    {
        self.recent.as_slice()
    }

    /// Whether palette `index` has been switched off.
    pub fn is_disabled(&self, index: usize) -> (off: bool)
        requires
            index < self@.available.len(),
        ensures
            off == self@.is_disabled(index as int),
    {
        let name = lowercase(self.available[index].name);
        let mut j: usize = 0;
        while j < self.disabled.len()
            invariant
                j <= self.disabled@.len(),
                name@ == lower(self@.available[index as int].name@),
                forall|k: int| 0 <= k < j ==> lower(#[trigger] self@.disabled[k]) != name@,
            decreases self.disabled.len() - j,
        {
            let d = lowercase(self.disabled[j].as_str());
            if same_text(d.as_str(), name.as_str()) {
                assert(self@.disabled[j as int] == self.disabled@[j as int]@);
                return true;
            }
            j = j + 1;
        }
        proof {
            if self@.is_disabled(index as int) {
                let k = choose|k: int|
                    0 <= k < self@.disabled.len() && lower(#[trigger] self@.disabled[k]) == lower(
                        self@.available[index as int].name@,
                    );
                assert(k < j);
            }
        }
        false
    }

    /// Take the palettes with these names out of the rotation, and put every
    /// other one back in.
    pub fn set_disabled(&mut self, names: &[String])
        ensures
            final(self)@.disabled == names@.map_values(|n: String| n@),
            final(self)@.available == old(self)@.available,
            final(self)@.current == old(self)@.current,
            final(self)@.recent == old(self)@.recent,
    {
        proof {
            use_type_invariant(&*self);
        }
        let mut copy: Vec<String> = Vec::new();
        let mut i: usize = 0;
        while i < names.len()
            invariant
                i <= names@.len(),
                copy@.len() == i,
                forall|k: int| 0 <= k < i ==> #[trigger] copy@[k]@ == names@[k]@,
            decreases names.len() - i,
        {
            copy.push(names[i].clone());
            i = i + 1;
        }
        self.disabled = copy;
        assert(self@.disabled =~= names@.map_values(|n: String| n@));
    }

    /// The next palette to move to: never the current one, never one switched
    /// off, and never a recent one unless nothing else is left. The current
    /// one again only when every other palette is switched off.
    pub fn pick_next(&self, rng: &mut Rng) -> (next: usize)
        ensures
            next == self@.pick(old(rng)@),
            final(rng)@ == if self@.pick_draws() {
                xorshift(old(rng)@)
            } else {
                old(rng)@
            },
            self@.available.len() > 0 ==> next < self@.available.len(),
            next != self@.current ==> self@.eligible(next as int),
            (exists|i: int| self@.eligible(i)) && self@.available.len() > 1 ==> next
                != self@.current,
            (exists|i: int| self@.fresh(i)) ==> !self@.recent.contains(next),
    {
        proof {
            use_type_invariant(self);
            assert(self.available@.len() == self.available.len());
            law_pick_obeys_the_rules(self@, rng@);
        }
        let n = self.available.len();
        if n <= 1 {
            return self.current;
        }
        let mut fresh: Vec<usize> = Vec::new();
        let mut eligible: Vec<usize> = Vec::new();
        let mut i: usize = 0;
        while i < n
            invariant
                n == self@.available.len(),
                i <= n,
                fresh@ == self@.fresh_upto(i as nat),
                eligible@ == self@.eligible_upto(i as nat),
            decreases n - i,
        {
            if i != self.current && !self.is_disabled(i) {
                eligible.push(i);
                if !contains_index(&self.recent, i) {
                    fresh.push(i);
                }
            }
            i = i + 1;
        }
        let candidates = if fresh.len() > 0 {
            fresh
        } else {
            eligible
        };
        if candidates.len() == 0 {
            return self.current;
        }
        let k = rng.next_usize(candidates.len());
        candidates[k]
    }

    /// Everything the rotator holds, leaving an empty one in its place.
    fn take_parts(&mut self) -> (p: (Vec<Palette>, usize, Vec<usize>, Vec<String>))
        ensures
            p.0@ == old(self)@.available,
            p.1 == old(self)@.current,
            p.2@ == old(self)@.recent,
            p.3@.map_values(|d: String| d@) == old(self)@.disabled,
    {
        let mut whole = Rotator::new(Vec::new(), 0);
        std::mem::swap(self, &mut whole);
        let Rotator { available, current, recent, disabled } = whole;
        (available, current, recent, disabled)
    }

    /// Move to palette `index`. Returns whether anything changed: nothing does
    /// when it is already current or not a palette at all.
    pub fn transition_to(&mut self, index: usize) -> (changed: bool)
        ensures
            final(self)@ == old(self)@.after_transition(index),
            changed == (index != old(self)@.current && index < old(self)@.available.len()),
    {
        proof {
            use_type_invariant(&*self);
        }
        if index == self.current || index >= self.available.len() {
            return false;
        }
        let ghost before = self@;
        let ghost pushed = self@.recent.push(index);
        let (available, _, mut recent, disabled) = self.take_parts();
        recent.push(index);
        if recent.len() > RECENT_MEMORY {
            recent.remove(0);
            assert(recent@ =~= pushed.skip(pushed.len() - RECENT_MEMORY));
        }
        proof {
            law_transition_remembers(before, index);
            assert(recent@ == before.after_transition(index).recent);
        }
        *self = Rotator { available, current: index, recent, disabled };
        true
    }

    /// Switch to the palette with this name, ignoring ASCII case. Returns
    /// false, changing nothing, when no palette is called that.
    pub fn select_by_name(&mut self, name: &str) -> (found: bool)
        ensures
            found == old(self)@.has_named(name@),
            found ==> exists|i: int|
                old(self)@.first_named(name@, i) && final(self)@ == old(self)@.after_transition(
                    i as usize,
                ),
            !found ==> final(self)@ == old(self)@,
    {
        let wanted = lowercase(name);
        let mut i: usize = 0;
        while i < self.available.len()
            invariant
                i <= self@.available.len(),
                self@ == old(self)@,
                wanted@ == lower(name@),
                forall|j: int| 0 <= j < i ==> lower(#[trigger] self@.available[j].name@) != wanted@,
            decreases self@.available.len() - i,
        {
            let here = lowercase(self.available[i].name);
            if same_text(here.as_str(), wanted.as_str()) {
                let ghost before = self@;
                assert(before.first_named(name@, i as int));
                self.transition_to(i);
                return true;
            }
            i = i + 1;
        }
        proof {
            if old(self)@.has_named(name@) {
                let k = choose|k: int|
                    0 <= k < old(self)@.available.len() && lower(
                        #[trigger] old(self)@.available[k].name@,
                    ) == lower(name@);
                assert(k < i);
            }
        }
        false
    }

    /// Resume a remembered position: `index` becomes current when it is a
    /// palette, and the remembered recent ones that are palettes become the
    /// recent list, the last few of them.
    pub fn restore(&mut self, index: usize, recent: &[usize])
        ensures
            final(self)@ == old(self)@.after_restore(index, recent@),
    {
        proof {
            use_type_invariant(&*self);
        }
        let n = self.available.len();
        let mut kept: Vec<usize> = Vec::new();
        let mut i: usize = 0;
        while i < recent.len()
            invariant
                i <= recent@.len(),
                n == self@.available.len(),
                kept@ == below(recent@.take(i as int), n as nat),
            decreases recent.len() - i,
        {
            assert(recent@.take(i + 1).drop_last() =~= recent@.take(i as int));
            if recent[i] < n {
                kept.push(recent[i]);
            }
            i = i + 1;
        }
        assert(recent@.take(recent@.len() as int) =~= recent@);
        proof {
            lemma_below(recent@, n as nat);
        }
        let ghost before = self@;
        let (available, old_current, _, disabled) = self.take_parts();
        if n == 0 {
            *self = Rotator { available, current: old_current, recent: Vec::new(), disabled };
            assert(self@.recent =~= before.after_restore(index, recent@).recent);
            return;
        }
        let current = if index < n {
            index
        } else {
            old_current
        };
        let k = kept.len();
        if k == 0 || kept[k - 1] != current {
            kept.push(current);
        }
        let ghost all = kept@;
        assert(all == ending_with(below(recent@, n as nat), current));
        assert forall|j: int| 0 <= j < all.len() implies all[j] < n by {
            if j < below(recent@, n as nat).len() {
                assert(all[j] == below(recent@, n as nat)[j]);
            }
        }
        while kept.len() > RECENT_MEMORY
            invariant
                kept@ =~= all.skip(all.len() - kept@.len()),
                kept@.len() >= RECENT_MEMORY || kept@ == all,
                all.len() >= kept@.len(),
                kept@.len() > 0,
            decreases kept.len(),
        {
            kept.remove(0);
        }
        assert(kept@ =~= keep_last(all, RECENT_MEMORY as nat));
        proof {
            assert forall|j: int| 0 <= j < kept@.len() implies kept@[j] < n by {
                assert(kept@[j] == all[j + all.len() - kept@.len()]);
            }
            assert(kept@.last() == all.last());
        }
        *self = Rotator { available, current, recent: kept, disabled };
    }
}

proof fn lemma_below(s: Seq<usize>, n: nat)
    ensures
        forall|k: int| 0 <= k < below(s, n).len() ==> #[trigger] below(s, n)[k] < n,
    decreases s.len(),
{
    if s.len() > 0 {
        lemma_below(s.drop_last(), n);
        let p = below(s.drop_last(), n);
        let q = below(s, n);
        assert forall|k: int| 0 <= k < q.len() implies #[trigger] q[k] < n by {
            if k < p.len() {
                assert(q[k] == p[k]);
            }
        }
    }
}

/// Whether `index` is among `list`.
fn contains_index(list: &Vec<usize>, index: usize) -> (found: bool)
    ensures
        found == list@.contains(index),
{
    let mut i: usize = 0;
    while i < list.len()
        invariant
            i <= list@.len(),
            forall|k: int| 0 <= k < i ==> list@[k] != index,
        decreases list.len() - i,
    {
        if list[i] == index {
            return true;
        }
        i = i + 1;
    }
    false
}

} // verus!
