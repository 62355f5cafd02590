//! Linking: the blocks of a function become one run of instructions, that
//! starts with the declaration of the function's frame. A jump to a block
//! becomes a relative jump to the first instruction of the block, and a
//! local becomes a slot of the frame: arguments first, then variables, then
//! temporaries.

use vstd::prelude::*;
use crate::mossc::bytecode::{Function, OpCode, Var};
use crate::mossc::lower::LowerError;

verus! {

/// The instructions of the blocks, one block after the other.
pub open spec fn flatten(blocks: Seq<Seq<OpCode>>) -> Seq<OpCode>
    decreases blocks.len(),
{
    if blocks.len() == 0 {
        Seq::empty()
    } else {
        flatten(blocks.drop_last()) + blocks.last()
    }
}

/// The index, among the instructions of all blocks, of the first instruction
/// of block `k`.
pub open spec fn block_start(blocks: Seq<Seq<OpCode>>, k: int) -> nat {
    flatten(blocks.take(k)).len()
}

/// The models of the blocks.
pub open spec fn blocks_view(blocks: Seq<Function>) -> Seq<Seq<OpCode>> {
    Seq::new(blocks.len(), |i: int| blocks[i]@)
}

/// The frame slot of a local.
pub open spec fn slot_of(kind: Var, n: usize, args: usize, vars: usize) -> Result<usize, LowerError> {
    let offset: int = match kind {
        Var::Arg => 0,
        Var::Var => args as int,
        Var::Tmp => args + vars,
    };
    if offset + n > usize::MAX {
        Err(LowerError::TooLarge)
    } else {
        Ok((offset + n) as usize)
    }
}

/// The jump from the instruction at `from` to the instruction at `target`.
pub open spec fn relative(target: int, from: int, conditional: bool) -> Result<OpCode, LowerError> {
    let distance = target - from;
    if i32::MIN <= distance <= i32::MAX {
        if conditional {
            Ok(OpCode::JUMP_REL_IF(distance as i32))
        } else {
            Ok(OpCode::JUMP_REL(distance as i32))
        }
    } else {
        Err(LowerError::TooLarge)
    }
}

/// What linking makes of the instruction `op`, which stands at index `at`
/// among the instructions of all blocks.
pub open spec fn link_op(
    blocks: Seq<Seq<OpCode>>,
    args: usize,
    vars: usize,
    at: int,
    op: OpCode,
) -> Result<OpCode, LowerError> {
    match op {
        OpCode::_Goto(target) => if target < blocks.len() {
            relative(block_start(blocks, target as int) as int, at, false)
        } else {
            Err(LowerError::MissingBlock)
        },
        OpCode::_GotoIf(target) => if target < blocks.len() {
            relative(block_start(blocks, target as int) as int, at, true)
        } else {
            Err(LowerError::MissingBlock)
        },
        OpCode::JUMP(target) => relative(target as int, at, false),
        OpCode::JUMP_IF(target) => relative(target as int, at, true),
        OpCode::Load(kind, n) => match slot_of(kind, n, args, vars) {
            Ok(slot) => Ok(OpCode::LoadLocal(slot)),
            Err(e) => Err(e),
        },
        OpCode::Store(kind, n) => match slot_of(kind, n, args, vars) {
            Ok(slot) => Ok(OpCode::StoreLocal(slot)),
            Err(e) => Err(e),
        },
        _ => Ok(op),
    }
}

/// The first `k` instructions of `code`, linked; the failure of the first
/// instruction that cannot be linked.
pub open spec fn link_prefix(
    blocks: Seq<Seq<OpCode>>,
    args: usize,
    vars: usize,
    code: Seq<OpCode>,
    k: int,
) -> Result<Seq<OpCode>, LowerError>
    decreases k,
{
    if k <= 0 {
        Ok(Seq::empty())
    } else {
        match link_prefix(blocks, args, vars, code, k - 1) {
            Err(e) => Err(e),
            Ok(linked) => match link_op(blocks, args, vars, k - 1, code[k - 1]) {
                Err(e) => Err(e),
                Ok(op) => Ok(linked.push(op)),
            },
        }
    }
}

/// The code of a function whose blocks are `blocks`, and that declares
/// `args` arguments, `vars` variables and `temps` temporaries.
pub open spec fn link(blocks: Seq<Seq<OpCode>>, args: usize, vars: usize, temps: usize) -> Result<
    Seq<OpCode>,
    LowerError,
> {
    let code = flatten(blocks);
    if args + vars + temps > usize::MAX || code.len() >= usize::MAX {
        Err(LowerError::TooLarge)
    } else {
        match link_prefix(blocks, args, vars, code, code.len() as int) {
            Err(e) => Err(e),
            Ok(linked) => Ok(seq![OpCode::StackFrame((args + vars + temps) as usize)] + linked),
        }
    }
}

/// The instructions of the first `k + 1` blocks are those of the first `k`
/// and then those of block `k`.
pub proof fn lemma_flatten_step(blocks: Seq<Seq<OpCode>>, k: int)
    requires
        0 <= k < blocks.len(),
    ensures
        flatten(blocks.take(k + 1)) == flatten(blocks.take(k)) + blocks[k],
{
    assert(blocks.take(k + 1).drop_last() =~= blocks.take(k));
    assert(blocks.take(k + 1).last() == blocks[k]);
}

/// Linking keeps the number of instructions, and links each on its own.
pub proof fn lemma_link_prefix_each(
    blocks: Seq<Seq<OpCode>>,
    args: usize,
    vars: usize,
    code: Seq<OpCode>,
    k: int,
)
    requires
        0 <= k,
    ensures
        link_prefix(blocks, args, vars, code, k) matches Ok(linked) ==> linked.len() == k
            && forall|i: int|
            0 <= i < k ==> link_op(blocks, args, vars, i, code[i]) == Ok::<OpCode, LowerError>(
                #[trigger] linked[i],
            ),
    decreases k,
{
    if k > 0 {
        lemma_link_prefix_each(blocks, args, vars, code, k - 1);
    }
}

/// Where the first `k` instructions cannot be linked, neither can the first `n`.
pub proof fn lemma_link_prefix_fails(
    blocks: Seq<Seq<OpCode>>,
    args: usize,
    vars: usize,
    code: Seq<OpCode>,
    k: int,
    n: int,
)
    requires
        0 <= k <= n,
    ensures
        link_prefix(blocks, args, vars, code, k) matches Err(e) ==> link_prefix(
            blocks,
            args,
            vars,
            code,
            n,
        ) == Err::<Seq<OpCode>, LowerError>(e),
    decreases n - k,
{
    if k < n {
        lemma_link_prefix_fails(blocks, args, vars, code, k + 1, n);
    }
}

/// Linked code starts with the declaration of its frame, and a jump to a block
/// lands on the first instruction of that block: where the instruction at
/// index `i` of the blocks is a jump to block `target`, the instruction at
/// index `i + 1` of the linked code is a relative jump, conditional if the
/// other was, whose distance leads from `i + 1` to the index that the first
/// instruction of the block has in the linked code.
pub proof fn lemma_linked_jumps_land(
    blocks: Seq<Seq<OpCode>>,
    args: usize,
    vars: usize,
    temps: usize,
    i: int,
)
    requires
        link(blocks, args, vars, temps) is Ok,
        0 <= i < flatten(blocks).len(),
    ensures
        ({
            let linked = link(blocks, args, vars, temps)->Ok_0;
            let op = flatten(blocks)[i];
            &&& linked.len() == flatten(blocks).len() + 1
            &&& linked[0] == OpCode::StackFrame((args + vars + temps) as usize)
            &&& op matches OpCode::_Goto(target) ==> {
                &&& target < blocks.len()
                &&& linked[i + 1] is JUMP_REL
                &&& i + 1 + linked[i + 1]->JUMP_REL_0 == block_start(blocks, target as int) + 1
            }
            &&& op matches OpCode::_GotoIf(target) ==> {
                &&& target < blocks.len()
                &&& linked[i + 1] is JUMP_REL_IF
                &&& i + 1 + linked[i + 1]->JUMP_REL_IF_0 == block_start(blocks, target as int) + 1
            }
        }),
{
    let code = flatten(blocks);
    lemma_link_prefix_each(blocks, args, vars, code, code.len() as int);
    let body = link_prefix(blocks, args, vars, code, code.len() as int)->Ok_0;
    assert(link_op(blocks, args, vars, i, code[i]) == Ok::<OpCode, LowerError>(body[i]));
}

/// Links the blocks of a function.
pub fn optimize_blocks(blocks: &Vec<Function>, arg_decls: usize, var_decls: usize, temp_decls: usize) -> (r:
    Result<Function, LowerError>)
    ensures
        match link(blocks_view(blocks@), arg_decls, var_decls, temp_decls) {
            Ok(code) => r matches Ok(f) && f@ == code,
            Err(e) => r matches Err(x) && x == e,
        },
{
    let ghost model = blocks_view(blocks@);
    let tmp_offset = match arg_decls.checked_add(var_decls) {
        Some(n) => n,
        None => { return Err(LowerError::TooLarge); },
    };
    let frame = match tmp_offset.checked_add(temp_decls) {
        Some(n) => n,
        None => { return Err(LowerError::TooLarge); },
    };
    let mut indicies: Vec<usize> = Vec::new();
    let mut opcodes: Vec<OpCode> = Vec::new();
    let mut b: usize = 0;
    assert(model.take(0) =~= Seq::<Seq<OpCode>>::empty());
    while b < blocks.len()
        invariant
            b <= blocks.len(),
            model == blocks_view(blocks@),
            indicies.len() == b,
            frame == arg_decls + var_decls + temp_decls,
            opcodes.len() < usize::MAX,
            opcodes@ == flatten(model.take(b as int)),
            forall|k: int| 0 <= k < b ==> indicies[k] == block_start(model, k),
        decreases blocks.len() - b,
    {
        proof {
            lemma_flatten_step(model, b as int);
            lemma_flatten_grows(model, b as int + 1);
        }
        indicies.push(opcodes.len());
        let block = &blocks[b];
        if block.len() >= usize::MAX - opcodes.len() {
            return Err(LowerError::TooLarge);
        }
        let mut j: usize = 0;
        let ghost start = opcodes@;
        while j < block.len()
            invariant
                j <= block.len(),
                opcodes@ == start + block@.take(j as int),
                start.len() + block.len() < usize::MAX,
            decreases block.len() - j,
        {
            opcodes.push(block[j]);
            assert(opcodes@ =~= start + block@.take(j + 1));
            j += 1;
        }
        assert(block@.take(block.len() as int) =~= block@);
        b += 1;
    }
    assert(model.take(blocks.len() as int) =~= model);
    let ghost code = flatten(model);
    let mut linked: Vec<OpCode> = Vec::new();
    linked.push(OpCode::StackFrame(frame));
    let mut i: usize = 0;
    while i < opcodes.len()
        invariant
            i <= opcodes.len(),
            opcodes@ == code,
            code == flatten(model),
            code.len() < usize::MAX,
            model == blocks_view(blocks@),
            tmp_offset == arg_decls + var_decls,
            frame == tmp_offset + temp_decls,
            indicies.len() == blocks.len(),
            forall|k: int| 0 <= k < blocks.len() ==> indicies[k] == block_start(model, k),
            link_prefix(model, arg_decls, var_decls, code, i as int) matches Ok(done)
                && linked@ == seq![OpCode::StackFrame(frame)] + done,
        decreases opcodes.len() - i,
    {
        proof {
            lemma_link_prefix_fails(model, arg_decls, var_decls, code, i + 1, code.len() as int);
        }
        let ghost done = link_prefix(model, arg_decls, var_decls, code, i as int)->Ok_0;
        let op = match link_one(&indicies, Ghost(model), arg_decls, tmp_offset, i, opcodes[i]) {
            Ok(op) => op,
            Err(e) => {
                assert(link_prefix(model, arg_decls, var_decls, code, i + 1) == Err::<
                    Seq<OpCode>,
                    LowerError,
                >(e));
                return Err(e);
            },
        };
        linked.push(op);
        assert(linked@ =~= seq![OpCode::StackFrame(frame)] + done.push(op));
        i += 1;
    }
    Ok(linked)
}

/// The instructions of some of the blocks are no more than those of all.
pub proof fn lemma_flatten_grows(blocks: Seq<Seq<OpCode>>, k: int)
    requires
        0 <= k <= blocks.len(),
    ensures
        flatten(blocks.take(k)).len() <= flatten(blocks).len(),
    decreases blocks.len() - k,
{
    if k < blocks.len() {
        lemma_flatten_step(blocks, k);
        lemma_flatten_grows(blocks, k + 1);
    } else {
        assert(blocks.take(k) =~= blocks);
    }
}

/// The relative jump from `from` to `target`.
fn jump(target: usize, from: usize, conditional: bool) -> (r: Result<OpCode, LowerError>)
    ensures
        r == relative(target as int, from as int, conditional),
{
    let distance: i128 = target as i128 - from as i128;
    if -2147483648 <= distance && distance <= 2147483647 {
        if conditional {
            Ok(OpCode::JUMP_REL_IF(distance as i32))
        } else {
            Ok(OpCode::JUMP_REL(distance as i32))
        }
    } else {
        Err(LowerError::TooLarge)
    }
}

/// Links one instruction. `indicies` holds the start of each block.
fn link_one(
    indicies: &Vec<usize>,
    Ghost(blocks): Ghost<Seq<Seq<OpCode>>>,
    var_offset: usize,
    tmp_offset: usize,
    at: usize,
    op: OpCode,
) -> (r: Result<OpCode, LowerError>)
    requires
        indicies.len() == blocks.len(),
        forall|k: int| 0 <= k < blocks.len() ==> indicies[k] == block_start(blocks, k),
        var_offset <= tmp_offset,
    ensures
        r == link_op(blocks, var_offset, (tmp_offset - var_offset) as usize, at as int, op),
{
    match op {
        OpCode::_Goto(target) => {
            if target < indicies.len() {
                jump(indicies[target], at, false)
            } else {
                Err(LowerError::MissingBlock)
            }
        },
        OpCode::_GotoIf(target) => {
            if target < indicies.len() {
                jump(indicies[target], at, true)
            } else {
                Err(LowerError::MissingBlock)
            }
        },
        OpCode::JUMP(target) => jump(target, at, false),
        OpCode::JUMP_IF(target) => jump(target, at, true),
        OpCode::Load(kind, n) => {
            let offset = match kind {
                Var::Arg => 0,
                Var::Var => var_offset,
                Var::Tmp => tmp_offset,
            };
            match offset.checked_add(n) {
                Some(slot) => Ok(OpCode::LoadLocal(slot)),
                None => Err(LowerError::TooLarge),
            }
        },
        OpCode::Store(kind, n) => {
            let offset = match kind {
                Var::Arg => 0,
                Var::Var => var_offset,
                Var::Tmp => tmp_offset,
            };
            match offset.checked_add(n) {
                Some(slot) => Ok(OpCode::StoreLocal(slot)),
                None => Err(LowerError::TooLarge),
            }
        },
        _ => Ok(op),
    }
}

} // verus!
