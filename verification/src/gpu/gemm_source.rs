//! The text of the tiled matrix product.
//!
//! One generator emits every variant. Accumulators, staging and the reduction
//! are fully unrolled, because an array indexed by a loop variable is not kept in
//! registers.

use vstd::prelude::*;
use vstd::string::*;

use crate::gpu::shaders;
use crate::gpu::shaders::{GemmEpilogue, Tile};
use crate::gpu::wgsl;
use crate::text;

verus! {

/// Which product to emit.
#[derive(Clone, Copy)]
pub struct GemmForm {
    pub tile: Tile,
    /// Derive a base offset per workgroup from the batch index.
    pub batched: bool,
    /// Read `B` as `(n, k)`.
    pub transb: bool,
    pub ep: GemmEpilogue,
    /// Walk `n` across the lanes when `B` is staged, in every K block.
    pub coalesced_b: bool,
    /// Gather `B` from a convolution's input.
    pub conv_direct: bool,
    /// Apply the softmax to `A` while it is staged.
    pub a_row_exp: bool,
    /// Stage four K elements per slot instead of two.
    pub wide: bool,
}

impl GemmForm {
    /// K elements per shared slot.
    pub open spec fn fw(self) -> nat {
        if self.wide {
            4
        } else {
            2
        }
    }

    /// Slots of one K block in a tile row.
    pub open spec fn row_slots(self) -> nat {
        shaders::BK as nat / self.fw()
    }

    /// Row pitch of a shared tile in elements.
    pub open spec fn pad(self) -> nat {
        if self.wide {
            (shaders::BK + 4) as nat
        } else {
            shaders::PAD as nat
        }
    }

    /// Row pitch of a shared tile in slots.
    pub open spec fn pw(self) -> nat {
        self.pad() / self.fw()
    }

    /// Rows of the result one thread owns.
    pub open spec fn tm(self) -> nat {
        (self.tile.bm / self.tile.ty) as nat
    }

    /// Columns of the result one thread owns.
    pub open spec fn tn(self) -> nat {
        (self.tile.bn / self.tile.tx) as nat
    }

    pub open spec fn threads(self) -> nat {
        (self.tile.tx * self.tile.ty) as nat
    }

    /// Slots of the `A` tile one thread stages.
    pub open spec fn slots_a(self) -> nat {
        (self.tile.bm * self.row_slots()) as nat / self.threads()
    }

    /// Slots of the `B` tile one thread stages.
    pub open spec fn slots_b(self) -> nat {
        (self.tile.bn * self.row_slots()) as nat / self.threads()
    }

    /// The combinations the generator is written for: the coalesced walk and the
    /// convolution gather take the plain operand, the folded softmax the plain
    /// batched one, and every thread stages at least one slot of each tile.
    pub open spec fn valid(self) -> bool {
        &&& self.tile.tx > 0
        &&& self.tile.ty > 0
        &&& self.tile.tx * self.tile.ty <= usize::MAX
        &&& self.tile.bm * self.pw() <= usize::MAX
        &&& self.tile.bn * self.pw() <= usize::MAX
        &&& !(self.coalesced_b && self.transb)
        &&& !(self.conv_direct && self.transb)
        &&& !(self.a_row_exp && (self.transb || self.conv_direct || self.coalesced_b
            || !self.batched))
        &&& self.slots_a() > 0
        &&& self.slots_b() > 0
    }

    /// The WGSL type of a shared slot.
    pub open spec fn slot_type(self) -> Seq<char> {
        if self.wide {
            "vec4<f32>"@
        } else {
            "vec2<f32>"@
        }
    }

    /// The batch base in front of an address of `A`, when there is one.
    pub open spec fn a_base(self) -> Seq<char> {
        if self.batched {
            "abase + "@
        } else {
            ""@
        }
    }

    pub open spec fn b_base(self) -> Seq<char> {
        if self.batched {
            "bbase + "@
        } else {
            ""@
        }
    }

    pub open spec fn c_base(self) -> Seq<char> {
        if self.batched {
            "cbase + "@
        } else {
            ""@
        }
    }

    /// Where a batch's own block of the gathered input starts.
    pub open spec fn conv_base(self) -> Seq<char> {
        if self.batched {
            "bbase"@
        } else {
            "0u"@
        }
    }

    /// A bias that runs along the columns, hoisted out of the rows.
    pub open spec fn column_bias(self) -> bool {
        self.ep.adds_bias() && self.ep != GemmEpilogue::RowBias
    }

    fn slot_type_text(self) -> (r: &'static str)
        ensures
            r@ == self.slot_type(),
    {
        if self.wide {
            "vec4<f32>"
        } else {
            "vec2<f32>"
        }
    }

    fn a_base_text(self) -> (r: &'static str)
        ensures
            r@ == self.a_base(),
    {
        if self.batched {
            "abase + "
        } else {
            ""
        }
    }

    fn b_base_text(self) -> (r: &'static str)
        ensures
            r@ == self.b_base(),
    {
        if self.batched {
            "bbase + "
        } else {
            ""
        }
    }

    fn c_base_text(self) -> (r: &'static str)
        ensures
            r@ == self.c_base(),
    {
        if self.batched {
            "cbase + "
        } else {
            ""
        }
    }

    fn conv_base_text(self) -> (r: &'static str)
        ensures
            r@ == self.conv_base(),
    {
        if self.batched {
            "bbase"
        } else {
            "0u"
        }
    }

    fn fw_of(self) -> (r: usize)
        ensures
            r == self.fw(),
            r == 2 || r == 4,
    {
        if self.wide {
            4
        } else {
            2
        }
    }

    fn row_slots_of(self) -> (r: usize)
        ensures
            r == self.row_slots(),
            r == 4 || r == 8,
            r <= self.pw(),
    {
        proof {
            if self.wide {
                assert(self.pw() == 20nat / 4nat);
            } else {
                assert(self.pw() == 18nat / 2nat);
            }
        }
        shaders::BK / self.fw_of()
    }

    fn slots_a_of(self) -> (r: usize)
        requires
            self.valid(),
        ensures
            r == self.slots_a(),
    {
        let row: usize = self.row_slots_of();
        proof {
            lemma_slots_fit(self.tile.bm as int, row as int, self.pw() as int);
        }
        self.tile.bm * row / self.threads_of()
    }

    fn slots_b_of(self) -> (r: usize)
        requires
            self.valid(),
        ensures
            r == self.slots_b(),
    {
        let row: usize = self.row_slots_of();
        proof {
            lemma_slots_fit(self.tile.bn as int, row as int, self.pw() as int);
        }
        self.tile.bn * row / self.threads_of()
    }

    fn threads_of(self) -> (r: usize)
        requires
            self.valid(),
        ensures
            r == self.threads(),
            r > 0,
    {
        proof {
            lemma_positive_product(self.tile.tx as int, self.tile.ty as int);
        }
        self.tile.tx * self.tile.ty
    }
}

proof fn lemma_slots_fit(side: int, row: int, pw: int)
    by (nonlinear_arith)
    requires
        side >= 0,
        row <= pw,
    ensures
        side * row <= side * pw,
{
}

proof fn lemma_positive_product(a: int, b: int)
    by (nonlinear_arith)
    requires
        a > 0,
        b > 0,
    ensures
        a * b > 0,
{
}

// -------------------------------------------------------------------- staging

/// One of the copies through which the operands reach the shared tiles.
#[derive(Clone, Copy)]
pub enum SlotCopy {
    /// The next K block of `A` into registers.
    PrefetchA,
    /// The next K block of `B` into registers.
    PrefetchB,
    /// The prefetched block of `A` into the shared tile.
    StoreA,
    /// The prefetched block of `B` into the shared tile.
    StoreB,
    /// The first K block of `A` into the shared tile.
    StageA,
    /// The first K block of `B` into the shared tile.
    StageB,
}

/// The flat index of the `e`-th slot a thread stages.
pub open spec fn flat_slot(f: GemmForm, e: nat) -> Seq<char> {
    text::filled(
        "(ty * ${tx}u + tx + ${e}u * ${threads}u)"@,
        text::no_holes().push(("tx"@, text::decimal(f.tile.tx as nat))).push(
            ("e"@, text::decimal(e)),
        ).push(("threads"@, text::decimal(f.threads()))),
    )
}

fn flat_slot_text(f: GemmForm, e: usize) -> (r: String)
    requires
        f.valid(),
    ensures
        r@ == flat_slot(f, e as nat),
{
    text::fill(
        "(ty * ${tx}u + tx + ${e}u * ${threads}u)",
        &text::Holes::new().number("tx", f.tile.tx).number("e", e).number("threads", f.threads_of()),
    )
}

/// A component of a slot.
pub open spec fn swizzle(c: nat) -> Seq<char> {
    if c == 0 {
        "x"@
    } else if c == 1 {
        "y"@
    } else if c == 2 {
        "z"@
    } else {
        "w"@
    }
}

fn swizzle_text(c: usize) -> (r: &'static str)
    ensures
        r@ == swizzle(c as nat),
{
    if c == 0 {
        "x"
    } else if c == 1 {
        "y"
    } else if c == 2 {
        "z"
    } else {
        "w"
    }
}

/// The holes of an element expression.
pub open spec fn element_holes(f: GemmForm, base: Seq<char>, e: nat, c: nat) -> text::Bindings {
    text::no_holes().push(("base"@, base)).push(("e"@, text::decimal(e))).push(
        ("fw"@, text::decimal(f.fw())),
    ).push(("c"@, text::decimal(c)))
}

fn element_holes_of(f: GemmForm, base: &str, e: usize, c: usize) -> (r: text::Holes)
    ensures
        r@ == element_holes(f, base@, e as nat, c as nat),
{
    text::Holes::new().text("base", base).number("e", e).number("fw", f.fw_of()).number("c", c)
}

/// The template of the K index of an element of `B`: the first block starts at zero,
/// the others at `k1`.
pub open spec fn depth_template(s: SlotCopy) -> Seq<char> {
    match s {
        SlotCopy::StageB => "vc${e} * ${fw}u + ${c}u"@,
        _ => "k1 + bx${e} * ${fw}u + ${c}u"@,
    }
}

/// The template of the column of an element of `B`.
pub open spec fn column_template(s: SlotCopy) -> Seq<char> {
    match s {
        SlotCopy::StageB => "n0 + vr${e}"@,
        _ => "n0 + by${e}"@,
    }
}

/// The K index of element `c` of slot `e` of `B`.
pub open spec fn b_depth(f: GemmForm, s: SlotCopy, e: nat, c: nat) -> Seq<char> {
    text::filled(depth_template(s), element_holes(f, ""@, e, c))
}

/// The column of element `c` of slot `e` of `B`.
pub open spec fn b_column(f: GemmForm, s: SlotCopy, e: nat, c: nat) -> Seq<char> {
    text::filled(column_template(s), element_holes(f, ""@, e, c))
}

/// The element of `B` at K index `k` and column `n`: `(k, n)` row-major, or `(n, k)`
/// where the operand is transposed.
pub open spec fn b_read(f: GemmForm, k: Seq<char>, n: Seq<char>) -> Seq<char> {
    if f.transb {
        "B["@ + (f.b_base() + "("@ + n + ") * gd.ldb + "@ + k) + "]"@
    } else {
        "B["@ + (f.b_base() + "("@ + k + ") * gd.ldb + "@ + n) + "]"@
    }
}

fn b_read_text(f: GemmForm, s: SlotCopy, e: usize, c: usize) -> (r: String)
    ensures
        r@ == b_read(f, b_depth(f, s, e as nat, c as nat), b_column(f, s, e as nat, c as nat)),
{
    let depth_at: &'static str = match s {
        SlotCopy::StageB => "vc${e} * ${fw}u + ${c}u",
        _ => "k1 + bx${e} * ${fw}u + ${c}u",
    };
    let column_at: &'static str = match s {
        SlotCopy::StageB => "n0 + vr${e}",
        _ => "n0 + by${e}",
    };
    let holes = element_holes_of(f, "", e, c);
    let k = text::fill(depth_at, &holes);
    let n = text::fill(column_at, &holes);
    let mut out = String::from_str("B[");
    out.append(f.b_base_text());
    out.append("(");
    if f.transb {
        out.append(n.as_str());
        out.append(") * gd.ldb + ");
        out.append(k.as_str());
    } else {
        out.append(k.as_str());
        out.append(") * gd.ldb + ");
        out.append(n.as_str());
    }
    out.append("]");
    proof {
        let (first, second) = if f.transb {
            (n@, k@)
        } else {
            (k@, n@)
        };
        assert(out@ =~= "B["@ + (f.b_base() + "("@ + first + ") * gd.ldb + "@ + second) + "]"@);
    }
    out
}

/// Element `c` of slot `e` as it is read, without its K guard.
pub open spec fn element(f: GemmForm, s: SlotCopy, e: nat, c: nat) -> Seq<char> {
    match s {
        SlotCopy::PrefetchA => text::filled(
            "A[${base}(m0 + ar${e}) * gd.lda + k1 + ac${e} * ${fw}u + ${c}u]"@,
            element_holes(f, f.a_base(), e, c),
        ),
        SlotCopy::PrefetchB => if f.conv_direct {
            text::filled(
                "conv_b(k1 + bx${e} * ${fw}u + ${c}u, oy, ox0 + by${e}, ${base})"@,
                element_holes(f, f.conv_base(), e, c),
            )
        } else {
            b_read(f, b_depth(f, s, e, c), b_column(f, s, e, c))
        },
        SlotCopy::StoreA => softmaxed(
            f,
            text::filled("pfa${e}.${base}"@, element_holes(f, swizzle(c), e, c)),
            e,
        ),
        SlotCopy::StoreB => text::filled("pfb${e}.${base}"@, element_holes(f, swizzle(c), e, c)),
        SlotCopy::StageA => softmaxed(
            f,
            text::filled(
                "A[${base}(m0 + wr${e}) * gd.lda + wc${e} * ${fw}u + ${c}u]"@,
                element_holes(f, f.a_base(), e, c),
            ),
            e,
        ),
        SlotCopy::StageB => if f.conv_direct {
            text::filled(
                "conv_b(vc${e} * ${fw}u + ${c}u, oy, ox0 + vr${e}, ${base})"@,
                element_holes(f, f.conv_base(), e, c),
            )
        } else {
            b_read(f, b_depth(f, s, e, c), b_column(f, s, e, c))
        },
    }
}

/// An `A` element with the folded softmax applied, where the form asks for it.
pub open spec fn softmaxed(f: GemmForm, value: Seq<char>, e: nat) -> Seq<char> {
    if f.a_row_exp {
        text::filled(
            "a_row_scale(${value}, ast${e})"@,
            text::no_holes().push(("value"@, value)).push(("e"@, text::decimal(e))),
        )
    } else {
        value
    }
}

fn softmaxed_text(f: GemmForm, value: String, e: usize) -> (r: String)
    ensures
        r@ == softmaxed(f, value@, e as nat),
{
    if f.a_row_exp {
        text::fill(
            "a_row_scale(${value}, ast${e})",
            &text::Holes::new().text("value", value.as_str()).number("e", e),
        )
    } else {
        value
    }
}

fn element_text(f: GemmForm, s: SlotCopy, e: usize, c: usize) -> (r: String)
    ensures
        r@ == element(f, s, e as nat, c as nat),
{
    match s {
        SlotCopy::PrefetchA => text::fill(
            "A[${base}(m0 + ar${e}) * gd.lda + k1 + ac${e} * ${fw}u + ${c}u]",
            &element_holes_of(f, f.a_base_text(), e, c),
        ),
        SlotCopy::PrefetchB => if f.conv_direct {
            text::fill(
                "conv_b(k1 + bx${e} * ${fw}u + ${c}u, oy, ox0 + by${e}, ${base})",
                &element_holes_of(f, f.conv_base_text(), e, c),
            )
        } else {
            b_read_text(f, s, e, c)
        },
        SlotCopy::StoreA => {
            let value = text::fill("pfa${e}.${base}", &element_holes_of(f, swizzle_text(c), e, c));
            softmaxed_text(f, value, e)
        },
        SlotCopy::StoreB => text::fill(
            "pfb${e}.${base}",
            &element_holes_of(f, swizzle_text(c), e, c),
        ),
        SlotCopy::StageA => {
            let value = text::fill(
                "A[${base}(m0 + wr${e}) * gd.lda + wc${e} * ${fw}u + ${c}u]",
                &element_holes_of(f, f.a_base_text(), e, c),
            );
            softmaxed_text(f, value, e)
        },
        SlotCopy::StageB => if f.conv_direct {
            text::fill(
                "conv_b(vc${e} * ${fw}u + ${c}u, oy, ox0 + vr${e}, ${base})",
                &element_holes_of(f, f.conv_base_text(), e, c),
            )
        } else {
            b_read_text(f, s, e, c)
        },
    }
}

/// The K index a stored slot starts at, before the element's own offset. The
/// prefetches carry no guard: what they over-read is replaced when it is stored.
pub open spec fn guard_base(s: SlotCopy) -> Option<Seq<char>> {
    match s {
        SlotCopy::PrefetchA | SlotCopy::PrefetchB => None,
        SlotCopy::StoreA => Some("k1 + sc${e} * ${fw}u"@),
        SlotCopy::StoreB => Some("k1 + uc${e} * ${fw}u"@),
        SlotCopy::StageA => Some("wc${e} * ${fw}u"@),
        SlotCopy::StageB => Some("vc${e} * ${fw}u"@),
    }
}

fn guard_base_text(s: SlotCopy) -> (r: Option<&'static str>)
    ensures
        match r {
            Some(base) => guard_base(s) == Some(base@),
            None => guard_base(s) is None,
        },
{
    match s {
        SlotCopy::PrefetchA | SlotCopy::PrefetchB => None,
        SlotCopy::StoreA => Some("k1 + sc${e} * ${fw}u"),
        SlotCopy::StoreB => Some("k1 + uc${e} * ${fw}u"),
        SlotCopy::StageA => Some("wc${e} * ${fw}u"),
        SlotCopy::StageB => Some("vc${e} * ${fw}u"),
    }
}

/// Element `c` of slot `e` with its K guard: past `gd.k` a zero is staged.
pub open spec fn guarded(f: GemmForm, s: SlotCopy, e: nat, c: nat) -> Seq<char> {
    match guard_base(s) {
        None => element(f, s, e, c),
        Some(base) => {
            let at = text::filled(base, element_holes(f, ""@, e, c));
            let holes = text::no_holes().push(("part"@, element(f, s, e, c))).push(
                ("at"@, at),
            ).push(("c"@, text::decimal(c)));
            if c == 0 {
                text::filled("select(0.0, ${part}, ${at} < gd.k)"@, holes)
            } else {
                text::filled("select(0.0, ${part}, ${at} + ${c}u < gd.k)"@, holes)
            }
        },
    }
}

fn guarded_text(f: GemmForm, s: SlotCopy, e: usize, c: usize) -> (r: String)
    ensures
        r@ == guarded(f, s, e as nat, c as nat),
{
    let part = element_text(f, s, e, c);
    match guard_base_text(s) {
        None => part,
        Some(base) => {
            let at = text::fill(base, &element_holes_of(f, "", e, c));
            let holes = text::Holes::new().text("part", part.as_str()).text("at", at.as_str()).number(
                "c",
                c,
            );
            if c == 0 {
                text::fill("select(0.0, ${part}, ${at} < gd.k)", &holes)
            } else {
                text::fill("select(0.0, ${part}, ${at} + ${c}u < gd.k)", &holes)
            }
        },
    }
}

/// The constructor of slot `e`.
pub open spec fn slot_value(f: GemmForm, s: SlotCopy, e: nat) -> Seq<char> {
    text::filled(
        "${fvt}(\n               ${parts})"@,
        text::no_holes().push(("fvt"@, f.slot_type())).push(
            (
                "parts"@,
                text::joined(
                    Seq::new(f.fw(), |c: int| guarded(f, s, e, c as nat)),
                    ",\n               "@,
                ),
            ),
        ),
    )
}

fn slot_value_text(f: GemmForm, s: SlotCopy, e: usize) -> (r: String)
    ensures
        r@ == slot_value(f, s, e as nat),
{
    let fw: usize = f.fw_of();
    let mut parts: Vec<String> = Vec::new();
    let mut c: usize = 0;
    while c < fw
        invariant
            c <= fw,
            parts@.len() == c,
            forall|k: int| 0 <= k < c ==> (#[trigger] parts@[k])@ == guarded(f, s, e as nat, k as nat),
        decreases fw - c,
    {
        parts.push(guarded_text(f, s, e, c));
        c += 1;
    }
    assert(text::texts(parts@) =~= Seq::new(f.fw(), |c: int| guarded(f, s, e as nat, c as nat)));
    let list = text::join(&parts, ",\n               ");
    text::fill(
        "${fvt}(\n               ${parts})",
        &text::Holes::new().text("fvt", f.slot_type_text()).text("parts", list.as_str()),
    )
}

/// What follows a flat slot index of `B` to give its column in the tile: consecutive
/// slots run along the columns in the coalesced walk, along K otherwise.
pub open spec fn column_walk(f: GemmForm) -> Seq<char> {
    if f.coalesced_b {
        "% "@ + text::decimal(f.tile.bn as nat) + "u"@
    } else {
        "/ "@ + text::decimal(f.row_slots()) + "u"@
    }
}

/// What follows a flat slot index of `B` to give its slot along K.
pub open spec fn pair_walk(f: GemmForm) -> Seq<char> {
    if f.coalesced_b {
        "/ "@ + text::decimal(f.tile.bn as nat) + "u"@
    } else {
        "% "@ + text::decimal(f.row_slots()) + "u"@
    }
}

fn walk_text(operator: &str, n: usize) -> (r: String)
    ensures
        r@ == operator@ + text::decimal(n as nat) + "u"@,
{
    let mut out = String::from_str(operator);
    out.append(text::decimal_text(n as u64).as_str());
    out.append("u");
    out
}

fn column_walk_text(f: GemmForm) -> (r: String)
    ensures
        r@ == column_walk(f),
{
    if f.coalesced_b {
        walk_text("% ", f.tile.bn)
    } else {
        walk_text("/ ", f.row_slots_of())
    }
}

fn pair_walk_text(f: GemmForm) -> (r: String)
    ensures
        r@ == pair_walk(f),
{
    if f.coalesced_b {
        walk_text("/ ", f.tile.bn)
    } else {
        walk_text("% ", f.row_slots_of())
    }
}

/// The statements that copy slot `e`: its flat index, its row and column in the
/// tile, and the copy itself.
pub open spec fn slot_lines(s: SlotCopy) -> Seq<char> {
    match s {
        SlotCopy::PrefetchA =>
            "            let ai${e} = ${flat};\n            let ar${e} = ai${e} / ${row}u;\n            let ac${e} = ai${e} % ${row}u;\n            pfa${e} = ${value};\n"@,
        SlotCopy::PrefetchB =>
            "            let bi${e} = ${flat};\n            let by${e} = bi${e} ${column};\n            let bx${e} = bi${e} ${pair};\n            pfb${e} = ${value};\n"@,
        SlotCopy::StoreA =>
            "        let si${e} = ${flat};\n        let sr${e} = si${e} / ${row}u;\n        let sc${e} = si${e} % ${row}u;\n        As[sr${e} * PW + sc${e}] = ${value};\n"@,
        SlotCopy::StoreB =>
            "        let ui${e} = ${flat};\n        let ur${e} = ui${e} ${column};\n        let uc${e} = ui${e} ${pair};\n        Bs[ur${e} * PW + uc${e}] = ${value};\n"@,
        SlotCopy::StageA =>
            "        let wi${e} = ${flat};\n        let wr${e} = wi${e} / ${row}u;\n        let wc${e} = wi${e} % ${row}u;\n        As[wr${e} * PW + wc${e}] = ${value};\n"@,
        SlotCopy::StageB =>
            "        let vi${e} = ${flat};\n        let vr${e} = vi${e} ${column};\n        let vc${e} = vi${e} ${pair};\n        Bs[vr${e} * PW + vc${e}] = ${value};\n"@,
    }
}

fn slot_lines_text(s: SlotCopy) -> (r: &'static str)
    ensures
        r@ == slot_lines(s),
{
    match s {
        SlotCopy::PrefetchA =>
            "            let ai${e} = ${flat};\n            let ar${e} = ai${e} / ${row}u;\n            let ac${e} = ai${e} % ${row}u;\n            pfa${e} = ${value};\n",
        SlotCopy::PrefetchB =>
            "            let bi${e} = ${flat};\n            let by${e} = bi${e} ${column};\n            let bx${e} = bi${e} ${pair};\n            pfb${e} = ${value};\n",
        SlotCopy::StoreA =>
            "        let si${e} = ${flat};\n        let sr${e} = si${e} / ${row}u;\n        let sc${e} = si${e} % ${row}u;\n        As[sr${e} * PW + sc${e}] = ${value};\n",
        SlotCopy::StoreB =>
            "        let ui${e} = ${flat};\n        let ur${e} = ui${e} ${column};\n        let uc${e} = ui${e} ${pair};\n        Bs[ur${e} * PW + uc${e}] = ${value};\n",
        SlotCopy::StageA =>
            "        let wi${e} = ${flat};\n        let wr${e} = wi${e} / ${row}u;\n        let wc${e} = wi${e} % ${row}u;\n        As[wr${e} * PW + wc${e}] = ${value};\n",
        SlotCopy::StageB =>
            "        let vi${e} = ${flat};\n        let vr${e} = vi${e} ${column};\n        let vc${e} = vi${e} ${pair};\n        Bs[vr${e} * PW + vc${e}] = ${value};\n",
    }
}

/// The copy of slot `e`.
pub open spec fn slot_copy(f: GemmForm, s: SlotCopy, e: nat) -> Seq<char> {
    text::filled(
        slot_lines(s),
        text::no_holes().push(("e"@, text::decimal(e))).push(("flat"@, flat_slot(f, e))).push(
            ("row"@, text::decimal(f.row_slots())),
        ).push(("column"@, column_walk(f))).push(("pair"@, pair_walk(f))).push(
            ("value"@, slot_value(f, s, e)),
        ),
    )
}

fn slot_copy_text(f: GemmForm, s: SlotCopy, e: usize) -> (r: String)
    requires
        f.valid(),
    ensures
        r@ == slot_copy(f, s, e as nat),
{
    let flat = flat_slot_text(f, e);
    let value = slot_value_text(f, s, e);
    let column = column_walk_text(f);
    let pair = pair_walk_text(f);
    text::fill(
        slot_lines_text(s),
        &text::Holes::new().number("e", e).text("flat", flat.as_str()).number(
            "row",
            f.row_slots_of(),
        ).text("column", column.as_str()).text("pair", pair.as_str()).text(
            "value",
            value.as_str(),
        ),
    )
}

/// The first `n` slots of one copy.
pub open spec fn slot_copies(f: GemmForm, s: SlotCopy, n: nat) -> Seq<char> {
    text::repeated(n, |e: int| slot_copy(f, s, e as nat))
}

fn slot_copies_text(f: GemmForm, s: SlotCopy, n: usize) -> (r: String)
    requires
        f.valid(),
    ensures
        r@ == slot_copies(f, s, n as nat),
{
    let mut out = String::new();
    let mut e: usize = 0;
    while e < n
        invariant
            e <= n,
            f.valid(),
            out@ == slot_copies(f, s, e as nat),
        decreases n - e,
    {
        out.append(slot_copy_text(f, s, e).as_str());
        e += 1;
    }
    out
}

// --------------------------------------------------------------- declarations

/// The registers a prefetch lands in, `name` telling the operands apart.
pub open spec fn prefetch_registers(f: GemmForm, name: Seq<char>, n: nat) -> Seq<char> {
    text::repeated(n, |e: int| prefetch_register(f, name, e as nat))
}

pub open spec fn prefetch_register(f: GemmForm, name: Seq<char>, e: nat) -> Seq<char> {
    text::filled(
        "    var ${name}${e}: ${fvt} = ${zero};\n"@,
        text::no_holes().push(("name"@, name)).push(("e"@, text::decimal(e))).push(
            ("fvt"@, f.slot_type()),
        ).push(
            (
                "zero"@,
                if f.wide {
                    "vec4<f32>(0.0, 0.0, 0.0, 0.0)"@
                } else {
                    "vec2<f32>(0.0, 0.0)"@
                },
            ),
        ),
    )
}

fn prefetch_registers_text(f: GemmForm, name: &str, n: usize) -> (r: String)
    ensures
        r@ == prefetch_registers(f, name@, n as nat),
{
    let zero = if f.wide {
        "vec4<f32>(0.0, 0.0, 0.0, 0.0)"
    } else {
        "vec2<f32>(0.0, 0.0)"
    };
    let mut out = String::new();
    let mut e: usize = 0;
    while e < n
        invariant
            e <= n,
            zero@ == if f.wide {
                "vec4<f32>(0.0, 0.0, 0.0, 0.0)"@
            } else {
                "vec2<f32>(0.0, 0.0)"@
            },
            out@ == prefetch_registers(f, name@, e as nat),
        decreases n - e,
    {
        let line = text::fill(
            "    var ${name}${e}: ${fvt} = ${zero};\n",
            &text::Holes::new().text("name", name).number("e", e).text(
                "fvt",
                f.slot_type_text(),
            ).text("zero", zero),
        );
        out.append(line.as_str());
        e += 1;
    }
    out
}

/// The statistics of the rows a thread stages, loaded once for all K blocks.
pub open spec fn stats_prologue(f: GemmForm) -> Seq<char> {
    if f.a_row_exp {
        text::repeated(f.slots_a(), |e: int| stats_line(f, e as nat))
    } else {
        Seq::empty()
    }
}

pub open spec fn stats_line(f: GemmForm, e: nat) -> Seq<char> {
    text::filled(
        "    let asr${e} = ${flat} / ${row}u;\n    let ast${e} = AStats[wid.z * ae.y + m0 + asr${e}];\n"@,
        text::no_holes().push(("e"@, text::decimal(e))).push(("flat"@, flat_slot(f, e))).push(
            ("row"@, text::decimal(f.row_slots())),
        ),
    )
}

fn stats_prologue_text(f: GemmForm) -> (r: String)
    requires
        f.valid(),
    ensures
        r@ == stats_prologue(f),
{
    let mut out = String::new();
    if f.a_row_exp {
        let n: usize = f.slots_a_of();
        let mut e: usize = 0;
        while e < n
            invariant
                e <= n,
                f.valid(),
                out@ == text::repeated(e as nat, |e: int| stats_line(f, e as nat)),
            decreases n - e,
        {
            let flat = flat_slot_text(f, e);
            let line = text::fill(
                "    let asr${e} = ${flat} / ${row}u;\n    let ast${e} = AStats[wid.z * ae.y + m0 + asr${e}];\n",
                &text::Holes::new().number("e", e).text("flat", flat.as_str()).number(
                    "row",
                    f.row_slots_of(),
                ),
            );
            out.append(line.as_str());
            e += 1;
        }
    }
    out
}

// ------------------------------------------------------------ rows by columns

/// The holes of a line about row `i` and column `j` of a thread's block, with the
/// K step in `q` and a component in `sw`.
pub open spec fn cell_holes(i: nat, j: nat, q: nat, sw: Seq<char>) -> text::Bindings {
    text::no_holes().push(("i"@, text::decimal(i))).push(("j"@, text::decimal(j))).push(
        ("q"@, text::decimal(q)),
    ).push(("sw"@, sw))
}

/// A line about one cell.
pub open spec fn cell(line: Seq<char>, i: nat, j: nat, q: nat, sw: Seq<char>) -> Seq<char> {
    text::filled(line, cell_holes(i, j, q, sw))
}

fn cell_text(line: &str, i: usize, j: usize, q: usize, sw: &str) -> (r: String)
    ensures
        r@ == cell(line@, i as nat, j as nat, q as nat, sw@),
{
    text::fill(
        line,
        &text::Holes::new().number("i", i).number("j", j).number("q", q).text("sw", sw),
    )
}

/// One line per index `i < n`.
pub open spec fn lines_over(line: Seq<char>, n: nat, q: nat) -> Seq<char> {
    text::repeated(n, |i: int| cell(line, i as nat, 0, q, ""@))
}

fn lines_over_text(line: &str, n: usize, q: usize) -> (r: String)
    ensures
        r@ == lines_over(line@, n as nat, q as nat),
{
    let mut out = String::new();
    let mut i: usize = 0;
    while i < n
        invariant
            i <= n,
            out@ == lines_over(line@, i as nat, q as nat),
        decreases n - i,
    {
        out.append(cell_text(line, i, 0, q, "").as_str());
        i += 1;
    }
    out
}

/// The accumulators of a thread's block.
pub open spec fn accumulators(f: GemmForm) -> Seq<char> {
    text::repeated(f.tm(), |i: int| accumulator_row(f.tn(), i as nat))
}

pub open spec fn accumulator_row(tn: nat, i: nat) -> Seq<char> {
    text::repeated(tn, |j: int| cell("    var c${i}_${j}: f32 = 0.0;\n"@, i, j as nat, 0, ""@))
}

fn accumulators_text(f: GemmForm) -> (r: String)
    requires
        f.valid(),
    ensures
        r@ == accumulators(f),
{
    let tm: usize = f.tile.bm / f.tile.ty;
    let tn: usize = f.tile.bn / f.tile.tx;
    let mut out = String::new();
    let mut i: usize = 0;
    while i < tm
        invariant
            i <= tm,
            tn == f.tn(),
            out@ == text::repeated(i as nat, |i: int| accumulator_row(f.tn(), i as nat)),
        decreases tm - i,
    {
        let mut row = String::new();
        let mut j: usize = 0;
        while j < tn
            invariant
                j <= tn,
                row@ == accumulator_row(j as nat, i as nat),
            decreases tn - j,
        {
            row.append(cell_text("    var c${i}_${j}: f32 = 0.0;\n", i, j, 0, "").as_str());
            j += 1;
        }
        out.append(row.as_str());
        i += 1;
    }
    out
}

/// The multiply-adds of one cell in one K step, one per slot element.
pub open spec fn fma_cell(fw: nat, i: nat, j: nat) -> Seq<char> {
    text::repeated(
        fw,
        |c: int|
            cell(
                "            c${i}_${j} = fma(a${i}.${sw}, b${j}.${sw}, c${i}_${j});\n"@,
                i,
                j,
                0,
                swizzle(c as nat),
            ),
    )
}

fn fma_cell_text(fw: usize, i: usize, j: usize) -> (r: String)
    ensures
        r@ == fma_cell(fw as nat, i as nat, j as nat),
{
    let mut out = String::new();
    let mut c: usize = 0;
    while c < fw
        invariant
            c <= fw,
            out@ == fma_cell(c as nat, i as nat, j as nat),
        decreases fw - c,
    {
        let line = cell_text(
            "            c${i}_${j} = fma(a${i}.${sw}, b${j}.${sw}, c${i}_${j});\n",
            i,
            j,
            0,
            swizzle_text(c),
        );
        out.append(line.as_str());
        c += 1;
    }
    out
}

pub open spec fn fma_row(fw: nat, tn: nat, i: nat) -> Seq<char> {
    text::repeated(tn, |j: int| fma_cell(fw, i, j as nat))
}

fn fma_row_text(fw: usize, tn: usize, i: usize) -> (r: String)
    ensures
        r@ == fma_row(fw as nat, tn as nat, i as nat),
{
    let mut out = String::new();
    let mut j: usize = 0;
    while j < tn
        invariant
            j <= tn,
            out@ == fma_row(fw as nat, j as nat, i as nat),
        decreases tn - j,
    {
        out.append(fma_cell_text(fw, i, j).as_str());
        j += 1;
    }
    out
}

pub open spec fn fma_block(fw: nat, tm: nat, tn: nat) -> Seq<char> {
    text::repeated(tm, |i: int| fma_row(fw, tn, i as nat))
}

fn fma_block_text(fw: usize, tm: usize, tn: usize) -> (r: String)
    ensures
        r@ == fma_block(fw as nat, tm as nat, tn as nat),
{
    let mut out = String::new();
    let mut i: usize = 0;
    while i < tm
        invariant
            i <= tm,
            out@ == fma_block(fw as nat, i as nat, tn as nat),
        decreases tm - i,
    {
        out.append(fma_row_text(fw, tn, i).as_str());
        i += 1;
    }
    out
}

/// One step of the reduction: the shared reads, then every cell's multiply-adds.
pub open spec fn k_step(f: GemmForm, q: nat) -> Seq<char> {
    "        {\n"@ + lines_over("            let a${i} = As[ar${i} + ${q}u];\n"@, f.tm(), q)
        + lines_over("            let b${i} = Bs[br${i} + ${q}u];\n"@, f.tn(), q) + fma_block(
        f.fw(),
        f.tm(),
        f.tn(),
    ) + "        }\n"@
}

fn k_step_text(f: GemmForm, q: usize) -> (r: String)
    requires
        f.valid(),
    ensures
        r@ == k_step(f, q as nat),
{
    let tm: usize = f.tile.bm / f.tile.ty;
    let tn: usize = f.tile.bn / f.tile.tx;
    let mut out = String::from_str("        {\n");
    out.append(lines_over_text("            let a${i} = As[ar${i} + ${q}u];\n", tm, q).as_str());
    out.append(lines_over_text("            let b${i} = Bs[br${i} + ${q}u];\n", tn, q).as_str());
    out.append(fma_block_text(f.fw_of(), tm, tn).as_str());
    out.append("        }\n");
    out
}

/// The reduction over one K block. The shared row bases do not move, so they are
/// computed once and every read is a constant offset from one.
pub open spec fn reduction(f: GemmForm) -> Seq<char> {
    lines_over("        let ar${i} = (ty + ${i}u * TY) * PW;\n"@, f.tm(), 0) + lines_over(
        "        let br${i} = (tx + ${i}u * TX) * PW;\n"@,
        f.tn(),
        0,
    ) + text::repeated(f.row_slots(), |q: int| k_step(f, q as nat))
}

fn reduction_text(f: GemmForm) -> (r: String)
    requires
        f.valid(),
    ensures
        r@ == reduction(f),
{
    let tm: usize = f.tile.bm / f.tile.ty;
    let tn: usize = f.tile.bn / f.tile.tx;
    let steps: usize = f.row_slots_of();
    let mut out = lines_over_text("        let ar${i} = (ty + ${i}u * TY) * PW;\n", tm, 0);
    out.append(lines_over_text("        let br${i} = (tx + ${i}u * TX) * PW;\n", tn, 0).as_str());
    let ghost bases = out@;
    let mut q: usize = 0;
    while q < steps
        invariant
            q <= steps,
            f.valid(),
            out@ == bases + text::repeated(q as nat, |q: int| k_step(f, q as nat)),
        decreases steps - q,
    {
        let ghost before = text::repeated(q as nat, |q: int| k_step(f, q as nat));
        out.append(k_step_text(f, q).as_str());
        assert(out@ =~= bases + (before + k_step(f, q as nat)));
        q += 1;
    }
    out
}

// ------------------------------------------------------------------- epilogue

/// What is stored for cell `(i, j)`: the accumulator, then the bias, then the
/// activation, then the element already there.
pub open spec fn stored(f: GemmForm, i: nat, j: nat) -> Seq<char> {
    let summed = if f.ep == GemmEpilogue::RowBias {
        "c${i}_${j} + row_bias${i}"@
    } else if f.column_bias() {
        "c${i}_${j} + cb${j}"@
    } else {
        "c${i}_${j}"@
    };
    let base = cell(summed, i, j, 0, ""@);
    let active = if f.ep.applies_gelu() {
        "gelu_erp("@ + base + ")"@
    } else {
        base
    };
    if f.ep.adds_residual() {
        active + cell(" + C[${sw}gm${i} * gd.ldc + gn${j}]"@, i, j, 0, f.c_base())
    } else {
        active
    }
}

fn stored_text(f: GemmForm, i: usize, j: usize) -> (r: String)
    ensures
        r@ == stored(f, i as nat, j as nat),
{
    let summed = if f.ep == GemmEpilogue::RowBias {
        "c${i}_${j} + row_bias${i}"
    } else if f.ep.has_bias() {
        "c${i}_${j} + cb${j}"
    } else {
        "c${i}_${j}"
    };
    let base = cell_text(summed, i, j, 0, "");
    let mut out = if f.ep.has_gelu() {
        let mut wrapped = String::from_str("gelu_erp(");
        wrapped.append(base.as_str());
        wrapped.append(")");
        wrapped
    } else {
        base
    };
    if f.ep.has_residual() {
        out.append(cell_text(" + C[${sw}gm${i} * gd.ldc + gn${j}]", i, j, 0, f.c_base_text()).as_str());
    }
    out
}

/// The guarded store of cell `(i, j)`.
pub open spec fn store_cell(f: GemmForm, i: nat, j: nat) -> Seq<char> {
    let column = if f.column_bias() {
        ""@
    } else {
        cell("        let gn${j} = n0 + tx + ${j}u * TX;\n"@, i, j, 0, ""@)
    };
    column + cell(
        "        if (gn${j} < gd.n) { C[${sw}gm${i} * gd.ldc + gn${j}] = "@,
        i,
        j,
        0,
        f.c_base(),
    ) + stored(f, i, j) + "; }\n"@
}

fn store_cell_text(f: GemmForm, i: usize, j: usize) -> (r: String)
    ensures
        r@ == store_cell(f, i as nat, j as nat),
{
    let mut out = if f.ep.has_bias() && f.ep != GemmEpilogue::RowBias {
        String::from_str("")
    } else {
        cell_text("        let gn${j} = n0 + tx + ${j}u * TX;\n", i, j, 0, "")
    };
    let target = cell_text(
        "        if (gn${j} < gd.n) { C[${sw}gm${i} * gd.ldc + gn${j}] = ",
        i,
        j,
        0,
        f.c_base_text(),
    );
    out.append(target.as_str());
    out.append(stored_text(f, i, j).as_str());
    out.append("; }\n");
    out
}

/// The stores of the first `tn` columns of row `i`.
pub open spec fn store_cells(f: GemmForm, i: nat, tn: nat) -> Seq<char> {
    text::repeated(tn, |j: int| store_cell(f, i, j as nat))
}

fn store_cells_text(f: GemmForm, i: usize, tn: usize) -> (r: String)
    ensures
        r@ == store_cells(f, i as nat, tn as nat),
{
    let mut out = String::new();
    let mut j: usize = 0;
    while j < tn
        invariant
            j <= tn,
            out@ == store_cells(f, i as nat, j as nat),
        decreases tn - j,
    {
        out.append(store_cell_text(f, i, j).as_str());
        j += 1;
    }
    out
}

/// The guarded stores of row `i`.
pub open spec fn store_row(f: GemmForm, i: nat) -> Seq<char> {
    let bias = if f.ep == GemmEpilogue::RowBias {
        cell("        let row_bias${i} = Bias[gm${i}];\n"@, i, 0, 0, ""@)
    } else {
        ""@
    };
    cell("    let gm${i} = m0 + ty + ${i}u * TY;\n    if (gm${i} < gd.m) {\n"@, i, 0, 0, ""@)
        + bias + store_cells(f, i, f.tn()) + "    }\n"@
}

fn store_row_text(f: GemmForm, i: usize) -> (r: String)
    requires
        f.valid(),
    ensures
        r@ == store_row(f, i as nat),
{
    let mut out = cell_text(
        "    let gm${i} = m0 + ty + ${i}u * TY;\n    if (gm${i} < gd.m) {\n",
        i,
        0,
        0,
        "",
    );
    let bias = if f.ep == GemmEpilogue::RowBias {
        cell_text("        let row_bias${i} = Bias[gm${i}];\n", i, 0, 0, "")
    } else {
        String::from_str("")
    };
    out.append(bias.as_str());
    out.append(store_cells_text(f, i, f.tile.bn / f.tile.tx).as_str());
    out.append("    }\n");
    out
}

/// The whole epilogue. A column bias is loaded once per column, ahead of the rows;
/// its index is clamped so the load stays inside the tensor.
pub open spec fn epilogue(f: GemmForm) -> Seq<char> {
    let columns = if f.column_bias() {
        lines_over(
            "    let gn${i} = n0 + tx + ${i}u * TX;\n    let cb${i} = Bias[min(gn${i}, gd.n - 1u)];\n"@,
            f.tn(),
            0,
        )
    } else {
        ""@
    };
    columns + text::repeated(f.tm(), |i: int| store_row(f, i as nat))
}

fn epilogue_text(f: GemmForm) -> (r: String)
    requires
        f.valid(),
    ensures
        r@ == epilogue(f),
{
    let tm: usize = f.tile.bm / f.tile.ty;
    let tn: usize = f.tile.bn / f.tile.tx;
    let mut out = if f.ep.has_bias() && f.ep != GemmEpilogue::RowBias {
        lines_over_text(
            "    let gn${i} = n0 + tx + ${i}u * TX;\n    let cb${i} = Bias[min(gn${i}, gd.n - 1u)];\n",
            tn,
            0,
        )
    } else {
        String::from_str("")
    };
    let ghost columns = out@;
    let mut i: usize = 0;
    while i < tm
        invariant
            i <= tm,
            f.valid(),
            out@ == columns + text::repeated(i as nat, |i: int| store_row(f, i as nat)),
        decreases tm - i,
    {
        let ghost before = text::repeated(i as nat, |i: int| store_row(f, i as nat));
        out.append(store_row_text(f, i).as_str());
        assert(out@ =~= columns + (before + store_row(f, i as nat)));
        i += 1;
    }
    out
}

// ------------------------------------------------------------------- assembly

/// The base offsets of a batch, emitted only where they can be non-zero: adding a
/// constant zero to every address costs measured throughput.
pub open spec fn batch_base(f: GemmForm) -> Seq<char> {
    if f.batched {
        "    let outer = wid.z / gd.inner_count;\n    let inner = wid.z % gd.inner_count;\n    let abase = outer * gd.asa_outer + inner * gd.asa_inner;\n    let bbase = outer * gd.bsb_outer + inner * gd.bsb_inner;\n    let cbase = outer * gd.csc_outer + inner * gd.csc_inner;\n"@
    } else {
        ""@
    }
}

/// The holes of a product kernel ahead of its copies, which do not depend on how `B`
/// is addressed.
pub open spec fn frame_holes(f: GemmForm) -> text::Bindings {
    text::no_holes().push(
        (
            "bias_binding"@,
            if f.ep.adds_bias() {
                "@group(0) @binding(4) var<storage, read> Bias: array<f32>;\n"@
            } else {
                ""@
            },
        ),
    ).push(
        (
            "b_operand"@,
            if f.conv_direct {
                "@group(0) @binding(1) var<storage, read> X: array<f32>;\n"@
            } else {
                "@group(0) @binding(1) var<storage, read> B: array<f32>;\n"@
            },
        ),
    ).push(
        (
            "conv_helper"@,
            if f.conv_direct {
                wgsl::GEMM_CONV_HELPER@
            } else {
                ""@
            },
        ),
    ).push(
        (
            "row_exp_helper"@,
            if f.a_row_exp {
                wgsl::GEMM_ROW_EXP_HELPER@
            } else {
                ""@
            },
        ),
    ).push(("bm"@, text::decimal(f.tile.bm as nat))).push(
        ("bn"@, text::decimal(f.tile.bn as nat)),
    ).push(("bk"@, text::decimal(shaders::BK as nat))).push(
        ("pad"@, text::decimal(f.pad())),
    ).push(("pw"@, text::decimal(f.pw()))).push(("tm"@, text::decimal(f.tm()))).push(
        ("tn"@, text::decimal(f.tn())),
    ).push(("tx"@, text::decimal(f.tile.tx as nat))).push(
        ("ty"@, text::decimal(f.tile.ty as nat)),
    ).push(("fvt"@, f.slot_type())).push(
        ("as_len"@, text::decimal((f.tile.bm * f.pw()) as nat)),
    ).push(("bs_len"@, text::decimal((f.tile.bn * f.pw()) as nat))).push(
        (
            "gelu_fn"@,
            if f.ep.applies_gelu() {
                wgsl::GEMM_GELU_FN@
            } else {
                ""@
            },
        ),
    ).push(
        (
            "conv_prologue"@,
            if f.conv_direct {
                wgsl::GEMM_CONV_PROLOGUE@
            } else {
                ""@
            },
        ),
    ).push(("batch_base"@, batch_base(f))).push(("stats_prologue"@, stats_prologue(f))).push(
        ("accumulators"@, accumulators(f)),
    ).push(
        (
            "prefetch_decl"@,
            prefetch_registers(f, "pfa"@, f.slots_a()) + prefetch_registers(
                f,
                "pfb"@,
                f.slots_b(),
            ),
        ),
    )
}

/// The text of one product kernel.
pub open spec fn gemm_wgsl(f: GemmForm) -> Seq<char> {
    text::filled(
        wgsl::GEMM@,
        frame_holes(f).push(
            (
                "store_stage0"@,
                slot_copies(f, SlotCopy::StageA, f.slots_a()) + slot_copies(
                    f,
                    SlotCopy::StageB,
                    f.slots_b(),
                ),
            ),
        ).push(
            (
                "prefetch"@,
                slot_copies(f, SlotCopy::PrefetchA, f.slots_a()) + slot_copies(
                    f,
                    SlotCopy::PrefetchB,
                    f.slots_b(),
                ),
            ),
        ).push(("compute"@, reduction(f))).push(
            (
                "store_prefetch"@,
                slot_copies(f, SlotCopy::StoreA, f.slots_a()) + slot_copies(
                    f,
                    SlotCopy::StoreB,
                    f.slots_b(),
                ),
            ),
        ).push(("epilogue"@, epilogue(f))),
    )
}

fn operand_pair_text(f: GemmForm, a: SlotCopy, b: SlotCopy) -> (r: String)
    requires
        f.valid(),
    ensures
        r@ == slot_copies(f, a, f.slots_a()) + slot_copies(f, b, f.slots_b()),
{
    let mut out = slot_copies_text(f, a, f.slots_a_of());
    out.append(slot_copies_text(f, b, f.slots_b_of()).as_str());
    out
}

/// Emits the product kernel of one form.
pub fn gemm_impl_width(f: GemmForm) -> (r: String)
    requires
        f.valid(),
    ensures
        r@ == gemm_wgsl(f),
{
    let fw: usize = f.fw_of();
    let pad: usize = if f.wide {
        shaders::BK + 4
    } else {
        shaders::PAD
    };
    let pw: usize = pad / fw;
    let bias_binding = if f.ep.has_bias() {
        "@group(0) @binding(4) var<storage, read> Bias: array<f32>;\n"
    } else {
        ""
    };
    let b_operand = if f.conv_direct {
        "@group(0) @binding(1) var<storage, read> X: array<f32>;\n"
    } else {
        "@group(0) @binding(1) var<storage, read> B: array<f32>;\n"
    };
    let conv_helper = if f.conv_direct {
        wgsl::GEMM_CONV_HELPER
    } else {
        ""
    };
    let row_exp_helper = if f.a_row_exp {
        wgsl::GEMM_ROW_EXP_HELPER
    } else {
        ""
    };
    let gelu_fn = if f.ep.has_gelu() {
        wgsl::GEMM_GELU_FN
    } else {
        ""
    };
    let conv_prologue = if f.conv_direct {
        wgsl::GEMM_CONV_PROLOGUE
    } else {
        ""
    };
    let base = if f.batched {
        "    let outer = wid.z / gd.inner_count;\n    let inner = wid.z % gd.inner_count;\n    let abase = outer * gd.asa_outer + inner * gd.asa_inner;\n    let bbase = outer * gd.bsb_outer + inner * gd.bsb_inner;\n    let cbase = outer * gd.csc_outer + inner * gd.csc_inner;\n"
    } else {
        ""
    };
    let stats = stats_prologue_text(f);
    let sums = accumulators_text(f);
    let mut registers = prefetch_registers_text(f, "pfa", f.slots_a_of());
    registers.append(prefetch_registers_text(f, "pfb", f.slots_b_of()).as_str());
    let stage = operand_pair_text(f, SlotCopy::StageA, SlotCopy::StageB);
    let prefetch = operand_pair_text(f, SlotCopy::PrefetchA, SlotCopy::PrefetchB);
    let store = operand_pair_text(f, SlotCopy::StoreA, SlotCopy::StoreB);
    let compute = reduction_text(f);
    let tail = epilogue_text(f);
    let tile = f.tile;
    text::fill(
        wgsl::GEMM,
        &text::Holes::new().text("bias_binding", bias_binding).text("b_operand", b_operand).text(
            "conv_helper",
            conv_helper,
        ).text("row_exp_helper", row_exp_helper).number("bm", tile.bm).number("bn", tile.bn).number(
            "bk",
            shaders::BK,
        ).number("pad", pad).number("pw", pw).number("tm", tile.bm / tile.ty).number(
            "tn",
            tile.bn / tile.tx,
        ).number("tx", tile.tx).number("ty", tile.ty).text("fvt", f.slot_type_text()).number(
            "as_len",
            tile.bm * pw,
        ).number("bs_len", tile.bn * pw).text("gelu_fn", gelu_fn).text(
            "conv_prologue",
            conv_prologue,
        ).text("batch_base", base).text("stats_prologue", stats.as_str()).text(
            "accumulators",
            sums.as_str(),
        ).text("prefetch_decl", registers.as_str()).text("store_stage0", stage.as_str()).text(
            "prefetch",
            prefetch.as_str(),
        ).text("compute", compute.as_str()).text("store_prefetch", store.as_str()).text(
            "epilogue",
            tail.as_str(),
        ),
    )
}

} // verus!
