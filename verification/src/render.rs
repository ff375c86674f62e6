use vstd::prelude::*;
use crate::model::{Block, BlockV, Document, DocumentV, Function, FunctionV, Instruction, Pass, PassV};
use crate::scalar::{render_name, render_scalar, Scalar};
use crate::scalar::{push_name, push_scalar};
use crate::text::{
    append_str, chars_of, dec_nat, dec_u64, pad_left, pad_right, push_range, push_spaces, spaces,
    lemma_spaces_add,
};

verus! {

/// The index of the first space in `s`, or `s.len()` when `s` holds none.
pub open spec fn first_space(s: Seq<char>) -> int
    decreases s.len(),
{
    if s.len() == 0 {
        0
    } else if s[0] == ' ' {
        0
    } else {
        1 + first_space(s.drop_first())
    }
}

pub proof fn lemma_first_space(s: Seq<char>)
    ensures
        0 <= first_space(s) <= s.len(),
        first_space(s) < s.len() ==> s[first_space(s)] == ' ',
        forall|j: int| 0 <= j < first_space(s) ==> s[j] != ' ',
    decreases s.len(),
{
    if s.len() == 0 {
    } else if s[0] == ' ' {
    } else {
        lemma_first_space(s.drop_first());
        assert forall|j: int| 0 <= j < first_space(s) implies s[j] != ' ' by {
            if j >= 1 {
                assert(s.drop_first()[j - 1] == s[j]);
            }
        }
        if first_space(s) < s.len() {
            assert(s.drop_first()[first_space(s) - 1] == s[first_space(s)]);
        }
    }
}

/// A position with no space before it, and a space (or the end) at it, is
/// the first space.
pub proof fn lemma_first_space_at(s: Seq<char>, i: int)
    requires
        0 <= i <= s.len(),
        forall|j: int| 0 <= j < i ==> s[j] != ' ',
        i < s.len() ==> s[i] == ' ',
    ensures
        first_space(s) == i,
    decreases i,
{
    if i == 0 {
        if s.len() > 0 {
            assert(s[0] == ' ');
        }
    } else {
        assert(s[0] != ' ');
        assert forall|j: int| 0 <= j < i - 1 implies s.drop_first()[j] != ' ' by {
            assert(s.drop_first()[j] == s[j + 1]);
        }
        if i - 1 < s.len() - 1 {
            assert(s.drop_first()[i - 1] == s[i]);
        }
        lemma_first_space_at(s.drop_first(), i - 1);
    }
}

/// The mnemonic of an opcode: the text before its first space, or the whole
/// opcode when it holds none.
pub open spec fn mnemonic_of(s: Seq<char>) -> Seq<char> {
    s.subrange(0, first_space(s))
}

/// The operand of an opcode: everything after its first space, further
/// spaces included, or empty when it holds none.
pub open spec fn operand_of(s: Seq<char>) -> Seq<char> {
    if first_space(s) == s.len() {
        Seq::empty()
    } else {
        s.subrange(first_space(s) + 1, s.len() as int)
    }
}

/// An opcode splits at its first space only: the mnemonic holds no space;
/// with a space present the opcode reads mnemonic, one space, operand, and
/// the operand keeps any further spaces; without one the mnemonic is the
/// whole opcode and the operand is empty.
pub proof fn lemma_opcode_split(s: Seq<char>)
    ensures
        forall|j: int| 0 <= j < mnemonic_of(s).len() ==> mnemonic_of(s)[j] != ' ',
        first_space(s) == s.len() ==> mnemonic_of(s) == s && operand_of(s) == Seq::<char>::empty(),
        first_space(s) < s.len() ==> s == mnemonic_of(s) + seq![' '] + operand_of(s),
{
    lemma_first_space(s);
    if first_space(s) == s.len() {
        assert(mnemonic_of(s) =~= s);
    } else {
        assert(s =~= mnemonic_of(s) + seq![' '] + operand_of(s));
    }
}

/// The widest mnemonic among the instructions of one block.
pub open spec fn opcode_width(instrs: Seq<Instruction>) -> nat
    decreases instrs.len(),
{
    if instrs.len() == 0 {
        0
    } else {
        let rest = opcode_width(instrs.drop_last());
        let m = mnemonic_of(instrs.last().opcode@).len();
        if m > rest {
            m
        } else {
            rest
        }
    }
}

/// The widest operand among the instructions of one block.
pub open spec fn operand_width(instrs: Seq<Instruction>) -> nat
    decreases instrs.len(),
{
    if instrs.len() == 0 {
        0
    } else {
        let rest = operand_width(instrs.drop_last());
        let m = operand_of(instrs.last().opcode@).len();
        if m > rest {
            m
        } else {
            rest
        }
    }
}

/// Every instruction's mnemonic and operand fit inside the block's widths.
pub proof fn lemma_width_bounds(instrs: Seq<Instruction>, i: int)
    requires
        0 <= i < instrs.len(),
    ensures
        mnemonic_of(instrs[i].opcode@).len() <= opcode_width(instrs),
        operand_of(instrs[i].opcode@).len() <= operand_width(instrs),
    decreases instrs.len(),
{
    if i == instrs.len() - 1 {
    } else {
        lemma_width_bounds(instrs.drop_last(), i);
    }
}

/// The opcode column of a non-empty block is exactly its widest mnemonic:
/// it bounds every instruction's mnemonic and some instruction attains it;
/// the operand column is its widest operand, the same way. Every line then
/// pads each of the two to five columns past its width.
pub proof fn lemma_widths_are_maxima(instrs: Seq<Instruction>)
    requires
        instrs.len() > 0,
    ensures
        forall|i: int|
            0 <= i < instrs.len() ==> mnemonic_of(instrs[i].opcode@).len() <= opcode_width(instrs),
        exists|k: int|
            0 <= k < instrs.len() && mnemonic_of(instrs[k].opcode@).len() == opcode_width(instrs),
        forall|i: int|
            0 <= i < instrs.len() ==> operand_of(instrs[i].opcode@).len() <= operand_width(instrs),
        exists|k: int|
            0 <= k < instrs.len() && operand_of(instrs[k].opcode@).len() == operand_width(instrs),
    decreases instrs.len(),
{
    assert forall|i: int| 0 <= i < instrs.len() implies mnemonic_of(instrs[i].opcode@).len()
        <= opcode_width(instrs) && operand_of(instrs[i].opcode@).len() <= operand_width(
        instrs,
    ) by {
        lemma_width_bounds(instrs, i);
    }
    let last = instrs.len() - 1;
    if instrs.len() == 1 {
        assert(instrs[0] == instrs.last());
        assert(mnemonic_of(instrs[last].opcode@).len() == opcode_width(instrs));
        assert(operand_of(instrs[last].opcode@).len() == operand_width(instrs));
    } else {
        lemma_widths_are_maxima(instrs.drop_last());
        if mnemonic_of(instrs.last().opcode@).len() == opcode_width(instrs) {
        } else {
            let k = choose|k: int|
                0 <= k < instrs.drop_last().len() && mnemonic_of(
                    instrs.drop_last()[k].opcode@,
                ).len() == opcode_width(instrs.drop_last());
            assert(instrs.drop_last()[k] == instrs[k]);
            assert(mnemonic_of(instrs[k].opcode@).len() == opcode_width(instrs));
        }
        if operand_of(instrs.last().opcode@).len() == operand_width(instrs) {
        } else {
            let k = choose|k: int|
                0 <= k < instrs.drop_last().len() && operand_of(
                    instrs.drop_last()[k].opcode@,
                ).len() == operand_width(instrs.drop_last());
            assert(instrs.drop_last()[k] == instrs[k]);
            assert(operand_of(instrs[k].opcode@).len() == operand_width(instrs));
        }
    }
}

/// One output line for one instruction: ten spaces of gutter, the id
/// right-aligned in three columns, a colon, then the mnemonic and the
/// operand each left-aligned in a field five columns wider than the widest
/// of its kind in the block, and the type's JSON rendering.
pub open spec fn render_line(i: Instruction, opw: nat, orw: nat) -> Seq<char> {
    "          "@ + pad_left(dec_nat(i.id as nat), 3) + ": "@ + pad_right(
        mnemonic_of(i.opcode@),
        opw + 5,
    ) + " "@ + pad_right(operand_of(i.opcode@), orw + 5) + " "@ + render_scalar(i.ty) + "\n"@
}

pub open spec fn render_lines(instrs: Seq<Instruction>, opw: nat, orw: nat) -> Seq<char>
    decreases instrs.len(),
{
    if instrs.len() == 0 {
        Seq::empty()
    } else {
        render_lines(instrs.drop_last(), opw, orw) + render_line(instrs.last(), opw, orw)
    }
}

/// The instruction listing of one block: one line per instruction, in
/// order, aligned by the block's own column widths.
pub open spec fn render_instructions(instrs: Seq<Instruction>) -> Seq<char> {
    render_lines(instrs, opcode_width(instrs), operand_width(instrs))
}

/// The space-joined `Block#` list used when a block has three or more
/// successors.
pub open spec fn render_successor_list(ss: Seq<Scalar>) -> Seq<char>
    decreases ss.len(),
{
    if ss.len() == 0 {
        Seq::empty()
    } else if ss.len() == 1 {
        "Block#"@ + render_scalar(ss[0])
    } else {
        render_successor_list(ss.drop_last()) + " Block#"@ + render_scalar(ss.last())
    }
}

/// The successor summary of one block, chosen by arity: none for no
/// successor; `Successor:` for one; a positional `T:`/`F:` pair for two;
/// and, with its own distinct indentation, a space-joined list for three or
/// more.
pub open spec fn render_successors(ss: Seq<Scalar>) -> Seq<char> {
    if ss.len() == 0 {
        Seq::empty()
    } else if ss.len() == 1 {
        "          Successor: Block#"@ + render_scalar(ss[0]) + "\n"@
    } else if ss.len() == 2 {
        "          Successors: T:Block#"@ + render_scalar(ss[0]) + " F:Block#"@ + render_scalar(
            ss[1],
        ) + "\n"@
    } else {
        "Successors: "@ + render_successor_list(ss) + "\n"@
    }
}

/// The successor summary varies strictly by count: no line at all for
/// zero; the single `Successor:` line for one; the positional `T:`/`F:`
/// pair for two; and for three or more the space-joined list, whose
/// leading format differs from the other two cases.
pub proof fn lemma_successor_format(ss: Seq<Scalar>)
    ensures
        ss.len() == 0 ==> render_successors(ss) == Seq::<char>::empty(),
        ss.len() == 1 ==> render_successors(ss) == "          Successor: Block#"@ + render_scalar(
            ss[0],
        ) + "\n"@,
        ss.len() == 2 ==> render_successors(ss) == "          Successors: T:Block#"@
            + render_scalar(ss[0]) + " F:Block#"@ + render_scalar(ss[1]) + "\n"@,
        ss.len() >= 3 ==> render_successors(ss) == "Successors: "@ + render_successor_list(ss)
            + "\n"@,
{
}

/// One block: its header, its instruction listing, its successor summary.
pub open spec fn render_block(b: BlockV) -> Seq<char> {
    "\n      Block#"@ + render_scalar(b.number) + "\n"@ + render_instructions(b.instructions)
        + render_successors(b.successors)
}

pub open spec fn render_blocks(bs: Seq<BlockV>) -> Seq<char>
    decreases bs.len(),
{
    if bs.len() == 0 {
        Seq::empty()
    } else {
        render_blocks(bs.drop_last()) + render_block(bs.last())
    }
}

/// One pass: its phase header, then its blocks in order.
pub open spec fn render_pass(p: PassV) -> Seq<char> {
    "\n\n  After Ion Phase "@ + render_name(p.name) + "\n\n"@ + render_blocks(p.blocks)
}

pub open spec fn render_passes(ps: Seq<PassV>) -> Seq<char>
    decreases ps.len(),
{
    if ps.len() == 0 {
        Seq::empty()
    } else {
        render_passes(ps.drop_last()) + render_pass(ps.last())
    }
}

/// One function: its graph header, then its passes in order.
pub open spec fn render_function(f: FunctionV) -> Seq<char> {
    "\n\nGraph for Function: "@ + render_name(f.name) + render_passes(f.passes)
}

pub open spec fn render_functions(fs: Seq<FunctionV>) -> Seq<char>
    decreases fs.len(),
{
    if fs.len() == 0 {
        Seq::empty()
    } else {
        render_functions(fs.drop_last()) + render_function(fs.last())
    }
}

/// The whole output text for a document.
pub open spec fn render_document(d: DocumentV) -> Seq<char> {
    render_functions(d.functions)
}

/// The index of the first space of `v`, or its length without one.
pub fn find_space(v: &Vec<char>) -> (i: usize)
    ensures
        i as int == first_space(v@),
{
    let n = v.len();
    let mut i: usize = 0;
    while i < n
        invariant
            i <= n,
            n == v@.len(),
            forall|j: int| 0 <= j < i ==> v@[j] != ' ',
        decreases n - i,
    {
        if v[i] == ' ' {
            proof {
                lemma_first_space_at(v@, i as int);
            }
            return i;
        }
        i += 1;
    }
    proof {
        lemma_first_space_at(v@, n as int);
    }
    n
}

/// Splits an opcode at its first space into mnemonic and operand; the
/// operand is empty when the opcode holds no space.
pub fn split_opcode(v: &Vec<char>) -> (r: (usize, usize))
    ensures
        r.0 as int == first_space(v@),
        r.0 as nat == mnemonic_of(v@).len(),
        r.1 as nat == operand_of(v@).len(),
{
    let fs = find_space(v);
    proof {
        lemma_first_space(v@);
    }
    if fs == v.len() {
        (fs, 0)
    } else {
        (fs, v.len() - fs - 1)
    }
}

/// The two column widths of one block, each the widest of its kind.
pub fn block_widths(instrs: &Vec<Instruction>) -> (r: (usize, usize))
    ensures
        r.0 as nat == opcode_width(instrs@),
        r.1 as nat == operand_width(instrs@),
{
    let n = instrs.len();
    let mut opw: usize = 0;
    let mut orw: usize = 0;
    let mut i: usize = 0;
    while i < n
        invariant
            i <= n,
            n == instrs@.len(),
            opw as nat == opcode_width(instrs@.subrange(0, i as int)),
            orw as nat == operand_width(instrs@.subrange(0, i as int)),
        decreases n - i,
    {
        let v = chars_of(instrs[i].opcode.as_str());
        let (m, o) = split_opcode(&v);
        if m > opw {
            opw = m;
        }
        if o > orw {
            orw = o;
        }
        proof {
            let pre = instrs@.subrange(0, i as int);
            let post = instrs@.subrange(0, i + 1);
            assert(post.drop_last() =~= pre);
            assert(post.last() == instrs@[i as int]);
        }
        i += 1;
    }
    proof {
        assert(instrs@.subrange(0, n as int) =~= instrs@);
    }
    (opw, orw)
}

/// Appends an instruction id, right-aligned in three columns.
fn push_id(out: &mut Vec<char>, id: u64)
    ensures
        final(out)@ == old(out)@ + pad_left(dec_nat(id as nat), 3),
{
    let d = dec_u64(id);
    if d.len() < 3 {
        push_spaces(out, 3 - d.len());
    }
    let dlen = d.len();
    push_range(out, &d, 0, dlen);
    proof {
        assert(d@.subrange(0, d@.len() as int) =~= d@);
    }
}

/// Appends the mnemonic of the opcode held in `v`, left-aligned in a field
/// five columns wider than `opw`.
fn push_mnemonic(out: &mut Vec<char>, v: &Vec<char>, m: usize, opw: usize)
    requires
        m as int == first_space(v@),
        m <= opw,
    ensures
        final(out)@ == old(out)@ + pad_right(mnemonic_of(v@), opw as nat + 5),
{
    proof {
        lemma_first_space(v@);
    }
    push_range(out, &v, 0, m);
    push_spaces(out, opw - m);
    push_spaces(out, 5);
    proof {
        lemma_spaces_add((opw - m) as nat, 5);
        assert(mnemonic_of(v@) =~= v@.subrange(0, m as int));
        assert(out@ =~= old(out)@ + pad_right(mnemonic_of(v@), opw as nat + 5));
    }
}

/// Appends the operand of the opcode held in `v`, left-aligned in a field
/// five columns wider than `orw`.
fn push_operand(out: &mut Vec<char>, v: &Vec<char>, m: usize, orw: usize)
    requires
        m as int == first_space(v@),
        operand_of(v@).len() <= orw,
    ensures
        final(out)@ == old(out)@ + pad_right(operand_of(v@), orw as nat + 5),
{
    proof {
        lemma_first_space(v@);
    }
    if m == v.len() {
        push_spaces(out, orw);
        push_spaces(out, 5);
        proof {
            lemma_spaces_add(orw as nat, 5);
            assert(operand_of(v@) =~= Seq::<char>::empty());
            assert(out@ =~= old(out)@ + pad_right(operand_of(v@), orw as nat + 5));
        }
    } else {
        let vlen = v.len();
        push_range(out, &v, m + 1, vlen);
        let olen = vlen - m - 1;
        proof {
            assert(v@.subrange(m + 1, v@.len() as int) =~= operand_of(v@));
        }
        push_spaces(out, orw - olen);
        push_spaces(out, 5);
        proof {
            lemma_spaces_add((orw - olen) as nat, 5);
            assert(out@ =~= old(out)@ + pad_right(operand_of(v@), orw as nat + 5));
        }
    }
}

/// Appends one aligned instruction line.
#[verifier::rlimit(60)]
fn push_line(out: &mut Vec<char>, instr: &Instruction, opw: usize, orw: usize)
    requires
        mnemonic_of(instr.opcode@).len() <= opw,
        operand_of(instr.opcode@).len() <= orw,
    ensures
        final(out)@ == old(out)@ + render_line(*instr, opw as nat, orw as nat),
{
    append_str(out, "          ");
    push_id(out, instr.id);
    append_str(out, ": ");
    let v = chars_of(instr.opcode.as_str());
    let (m, o) = split_opcode(&v);
    proof {
        lemma_first_space(v@);
        assert(mnemonic_of(v@).len() == m);
    }
    push_mnemonic(out, &v, m, opw);
    append_str(out, " ");
    push_operand(out, &v, m, orw);
    append_str(out, " ");
    push_scalar(out, &instr.ty);
    append_str(out, "\n");
    proof {
        assert(out@ =~= old(out)@ + render_line(*instr, opw as nat, orw as nat));
    }
}

/// Appends one block's aligned instruction listing.
pub fn push_instructions(out: &mut Vec<char>, instrs: &Vec<Instruction>)
    ensures
        final(out)@ == old(out)@ + render_instructions(instrs@),
{
    let (opw, orw) = block_widths(instrs);
    let n = instrs.len();
    let mut i: usize = 0;
    while i < n
        invariant
            i <= n,
            n == instrs@.len(),
            opw as nat == opcode_width(instrs@),
            orw as nat == operand_width(instrs@),
            out@ == old(out)@ + render_lines(instrs@.subrange(0, i as int), opw as nat, orw as nat),
        decreases n - i,
    {
        proof {
            lemma_width_bounds(instrs@, i as int);
        }
        push_line(out, &instrs[i], opw, orw);
        proof {
            let pre = instrs@.subrange(0, i as int);
            let post = instrs@.subrange(0, i + 1);
            assert(post.drop_last() =~= pre);
            assert(post.last() == instrs@[i as int]);
            assert(old(out)@ + render_lines(pre, opw as nat, orw as nat) + render_line(
                instrs@[i as int],
                opw as nat,
                orw as nat,
            ) =~= old(out)@ + render_lines(post, opw as nat, orw as nat));
        }
        i += 1;
    }
    proof {
        assert(instrs@.subrange(0, n as int) =~= instrs@);
    }
}

/// Appends the space-joined successor list of the three-or-more case.
fn push_successor_list(out: &mut Vec<char>, ss: &Vec<Scalar>)
    ensures
        final(out)@ == old(out)@ + render_successor_list(ss@),
{
    let n = ss.len();
    let mut i: usize = 0;
    while i < n
        invariant
            i <= n,
            n == ss@.len(),
            out@ == old(out)@ + render_successor_list(ss@.subrange(0, i as int)),
        decreases n - i,
    {
        if i == 0 {
            append_str(out, "Block#");
        } else {
            append_str(out, " Block#");
        }
        push_scalar(out, &ss[i]);
        proof {
            let pre = ss@.subrange(0, i as int);
            let post = ss@.subrange(0, i + 1);
            assert(post.drop_last() =~= pre);
            assert(post.last() == ss@[i as int]);
            if i == 0 {
                assert(post.len() == 1 && post[0] == ss@[0]);
            }
            assert(out@ =~= old(out)@ + render_successor_list(post));
        }
        i += 1;
    }
    proof {
        assert(ss@.subrange(0, n as int) =~= ss@);
    }
}

/// Appends one block's successor summary, chosen by arity.
pub fn push_successors(out: &mut Vec<char>, ss: &Vec<Scalar>)
    ensures
        final(out)@ == old(out)@ + render_successors(ss@),
{
    let n = ss.len();
    if n == 0 {
        proof {
            assert(final(out)@ =~= old(out)@ + render_successors(ss@));
        }
    } else if n == 1 {
        append_str(out, "          Successor: Block#");
        push_scalar(out, &ss[0]);
        append_str(out, "\n");
        proof {
            assert(final(out)@ =~= old(out)@ + render_successors(ss@));
        }
    } else if n == 2 {
        append_str(out, "          Successors: T:Block#");
        push_scalar(out, &ss[0]);
        append_str(out, " F:Block#");
        push_scalar(out, &ss[1]);
        append_str(out, "\n");
        proof {
            assert(final(out)@ =~= old(out)@ + render_successors(ss@));
        }
    } else {
        append_str(out, "Successors: ");
        push_successor_list(out, ss);
        append_str(out, "\n");
        proof {
            assert(final(out)@ =~= old(out)@ + render_successors(ss@));
        }
    }
}

/// Appends one block's whole rendering.
pub fn push_block(out: &mut Vec<char>, b: &Block)
    ensures
        final(out)@ == old(out)@ + render_block(b@),
{
    append_str(out, "\n      Block#");
    push_scalar(out, &b.number);
    append_str(out, "\n");
    push_instructions(out, &b.instructions);
    push_successors(out, &b.successors);
    proof {
        assert(out@ =~= old(out)@ + render_block(b@));
    }
}

/// Appends one pass's whole rendering.
pub fn push_pass(out: &mut Vec<char>, p: &Pass)
    ensures
        final(out)@ == old(out)@ + render_pass(p@),
{
    append_str(out, "\n\n  After Ion Phase ");
    push_name(out, &p.name);
    append_str(out, "\n\n");
    let n = p.blocks.len();
    let mut i: usize = 0;
    while i < n
        invariant
            i <= n,
            n == p.blocks@.len(),
            out@ == old(out)@ + "\n\n  After Ion Phase "@ + render_name(p.name) + "\n\n"@
                + render_blocks(p@.blocks.subrange(0, i as int)),
        decreases n - i,
    {
        push_block(out, &p.blocks[i]);
        proof {
            let pre = p@.blocks.subrange(0, i as int);
            let post = p@.blocks.subrange(0, i + 1);
            assert(post.drop_last() =~= pre);
            assert(post.last() == p@.blocks[i as int]);
            assert(p@.blocks[i as int] == p.blocks@[i as int]@);
            assert(render_blocks(pre) + render_block(p.blocks@[i as int]@) =~= render_blocks(post));
        }
        i += 1;
    }
    proof {
        assert(p@.blocks.subrange(0, n as int) =~= p@.blocks);
        assert(out@ =~= old(out)@ + render_pass(p@));
    }
}

/// Appends one function's whole rendering.
pub fn push_function(out: &mut Vec<char>, f: &Function)
    ensures
        final(out)@ == old(out)@ + render_function(f@),
{
    append_str(out, "\n\nGraph for Function: ");
    push_name(out, &f.name);
    let n = f.passes.len();
    let mut i: usize = 0;
    while i < n
        invariant
            i <= n,
            n == f.passes@.len(),
            out@ == old(out)@ + "\n\nGraph for Function: "@ + render_name(f.name) + render_passes(
                f@.passes.subrange(0, i as int),
            ),
        decreases n - i,
    {
        push_pass(out, &f.passes[i]);
        proof {
            let pre = f@.passes.subrange(0, i as int);
            let post = f@.passes.subrange(0, i + 1);
            assert(post.drop_last() =~= pre);
            assert(post.last() == f@.passes[i as int]);
            assert(f@.passes[i as int] == f.passes@[i as int]@);
            assert(render_passes(pre) + render_pass(f.passes@[i as int]@) =~= render_passes(post));
        }
        i += 1;
    }
    proof {
        assert(f@.passes.subrange(0, n as int) =~= f@.passes);
        assert(out@ =~= old(out)@ + render_function(f@));
    }
}

/// Appends the whole document's rendering.
pub fn push_document(out: &mut Vec<char>, d: &Document)
    ensures
        final(out)@ == old(out)@ + render_document(d@),
{
    let n = d.functions.len();
    let mut i: usize = 0;
    while i < n
        invariant
            i <= n,
            n == d.functions@.len(),
            out@ == old(out)@ + render_functions(d@.functions.subrange(0, i as int)),
        decreases n - i,
    {
        push_function(out, &d.functions[i]);
        proof {
            let pre = d@.functions.subrange(0, i as int);
            let post = d@.functions.subrange(0, i + 1);
            assert(post.drop_last() =~= pre);
            assert(post.last() == d@.functions[i as int]);
            assert(d@.functions[i as int] == d.functions@[i as int]@);
            assert(render_functions(pre) + render_function(d.functions@[i as int]@)
                =~= render_functions(post));
        }
        i += 1;
    }
    proof {
        assert(d@.functions.subrange(0, n as int) =~= d@.functions);
    }
}

} // verus!
