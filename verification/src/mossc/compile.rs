//! From a program of control-flow functions to a program store.

use vstd::prelude::*;
use crate::mossc::bytecode::{FuncId, Function, OpCode};
use crate::mossc::link::{blocks_view, link, optimize_blocks};
use crate::mossc::lower::{BlockGen, LowerError, block_ops};
use crate::mossc::mir::{BasicBlockData, Mir};
use crate::mossc::program::{Program, ProgramView};

verus! {

/// A function of the program, with its body.
pub struct Item {
    pub def_id: FuncId,
    /// The name that the function was declared with.
    pub name: String,
    /// The crate that declares the function: zero is the program itself.
    pub krate: u32,
    pub mir: Mir,
}

/// The functions that the program declares, in the order of their identities.
pub struct Context {
    pub map: Vec<Item>,
}

/// The bytecode of each of the blocks, still unlinked; the failure of the
/// first block that has none.
pub open spec fn blocks_of(blocks: Seq<BasicBlockData>) -> Result<Seq<Seq<OpCode>>, LowerError>
    decreases blocks.len(),
{
    if blocks.len() == 0 {
        Ok(Seq::empty())
    } else {
        match blocks_of(blocks.drop_last()) {
            Err(e) => Err(e),
            Ok(done) => match block_ops(blocks.last()) {
                Err(e) => Err(e),
                Ok(ops) => Ok(done.push(ops)),
            },
        }
    }
}

/// The bytecode of a function.
pub open spec fn code_of(func: Mir) -> Result<Seq<OpCode>, LowerError> {
    match blocks_of(func.basic_blocks@) {
        Err(e) => Err(e),
        Ok(blocks) => link(blocks, func.arg_decls, func.var_decls, func.temp_decls),
    }
}

/// Whether a name marks a function that the host provides: it starts with
/// two underscores.
pub open spec fn is_internal(name: Seq<char>) -> bool {
    name.len() >= 2 && name[0] == '_' && name[1] == '_'
}

/// The name under which the host provides a function: its own, without
/// the mark.
pub open spec fn internal_name(name: Seq<char>) -> Seq<char> {
    name.subrange(2, name.len() as int)
}

/// Whether a function is the entry of the program: the program's own
/// function `main`.
pub open spec fn is_main(krate: u32, name: Seq<char>) -> bool {
    krate == 0 && name == "main"@
}

/// The store and the entry that the items make, one item after the other.
/// A function enters the store with its code, under its identity, unless one
/// is there under that identity; a marked function is noted as provided by
/// the host; and the last entry among the others is the entry of the program.
pub open spec fn generated(items: Seq<Item>) -> Result<(ProgramView, Option<FuncId>), LowerError>
    decreases items.len(),
{
    if items.len() == 0 {
        Ok((ProgramView { functions: Map::empty(), internals: Map::empty() }, None))
    } else {
        match generated(items.drop_last()) {
            Err(e) => Err(e),
            Ok((p, main)) => {
                let item = items.last();
                match code_of(item.mir) {
                    Err(e) => Err(e),
                    Ok(code) => {
                        let functions = if p.functions.contains_key(item.def_id) {
                            p.functions
                        } else {
                            p.functions.insert(item.def_id, code)
                        };
                        if is_internal(item.name@) {
                            Ok(
                                (
                                    ProgramView {
                                        functions,
                                        internals: p.internals.insert(
                                            item.def_id,
                                            internal_name(item.name@),
                                        ),
                                    },
                                    main,
                                ),
                            )
                        } else if is_main(item.krate, item.name@) {
                            Ok((ProgramView { functions, ..p }, Some(item.def_id)))
                        } else {
                            Ok((ProgramView { functions, ..p }, main))
                        }
                    },
                }
            },
        }
    }
}

/// Where the first `k` blocks have no bytecode, neither have all.
pub proof fn lemma_blocks_prefix(blocks: Seq<BasicBlockData>, k: int)
    requires
        0 <= k <= blocks.len(),
    ensures
        blocks_of(blocks.take(k)) matches Err(e) ==> blocks_of(blocks) == Err::<
            Seq<Seq<OpCode>>,
            LowerError,
        >(e),
    decreases blocks.len(),
{
    if k == blocks.len() {
        assert(blocks.take(k) =~= blocks);
    } else {
        lemma_blocks_prefix(blocks.drop_last(), k);
        assert(blocks.drop_last().take(k) =~= blocks.take(k));
    }
}

/// Where the first `k` items make no store, neither do all.
pub proof fn lemma_generated_prefix(items: Seq<Item>, k: int)
    requires
        0 <= k <= items.len(),
    ensures
        generated(items.take(k)) matches Err(e) ==> generated(items) == Err::<
            (ProgramView, Option<FuncId>),
            LowerError,
        >(e),
    decreases items.len(),
{
    if k == items.len() {
        assert(items.take(k) =~= items);
    } else {
        lemma_generated_prefix(items.drop_last(), k);
        assert(items.drop_last().take(k) =~= items.take(k));
    }
}

impl Context {
    /// Makes the bytecode of a function: each block on its own, then all linked.
    pub fn mir_to_bytecode(&self, func: &Mir) -> (r: Result<Function, LowerError>)
        ensures
            match code_of(*func) {
                Ok(code) => r matches Ok(f) && f@ == code,
                Err(e) => r matches Err(x) && x == e,
            },
    {
        let mut blocks: Vec<Function> = Vec::new();
        let mut i: usize = 0;
        assert(func.basic_blocks@.take(0) =~= Seq::<BasicBlockData>::empty());
        assert(blocks_view(blocks@) =~= Seq::<Seq<OpCode>>::empty());
        while i < func.basic_blocks.len()
            invariant
                i <= func.basic_blocks.len(),
                blocks_of(func.basic_blocks@.take(i as int)) == Ok::<Seq<Seq<OpCode>>, LowerError>(
                    blocks_view(blocks@),
                ),
            decreases func.basic_blocks.len() - i,
        {
            proof {
                assert(func.basic_blocks@.take(i + 1).drop_last() =~= func.basic_blocks@.take(
                    i as int,
                ));
                assert(func.basic_blocks@.take(i + 1).last() == func.basic_blocks@[i as int]);
                lemma_blocks_prefix(func.basic_blocks@, i + 1);
            }
            let mut gen = BlockGen::new();
            match gen.analyse_block(&func.basic_blocks[i]) {
                Ok(()) => {},
                Err(e) => { return Err(e); },
            }
            let ghost before = blocks_view(blocks@);
            assert(gen.opcodes@ =~= block_ops(func.basic_blocks@[i as int])->Ok_0);
            blocks.push(gen.opcodes);
            assert(blocks_view(blocks@) =~= before.push(
                block_ops(func.basic_blocks@[i as int])->Ok_0,
            ));
            i += 1;
        }
        assert(func.basic_blocks@.take(func.basic_blocks.len() as int) =~= func.basic_blocks@);
        optimize_blocks(&blocks, func.arg_decls, func.var_decls, func.temp_decls)
    }
}

/// Whether a name starts with two underscores.
fn has_mark(name: &str) -> (r: bool)
    ensures
        r == is_internal(name@),
{
    name.unicode_len() >= 2 && name.get_char(0) == '_' && name.get_char(1) == '_'
}

/// Makes the program store, and finds the entry of the program.
pub fn generate_bytecode(context: &Context) -> (r: Result<(Program, FuncId), LowerError>)
    ensures
        match generated(context.map@) {
            Ok((p, Some(main))) => r matches Ok((program, entry)) && program@ == p && entry == main,
            Ok((p, None)) => r matches Err(e) && e == LowerError::NoMain,
            Err(e) => r matches Err(x) && x == e,
        },
{
    let mut program = Program::new();
    let mut main: Option<FuncId> = None;
    let mut i: usize = 0;
    assert(context.map@.take(0) =~= Seq::<Item>::empty());
    while i < context.map.len()
        invariant
            i <= context.map.len(),
            generated(context.map@.take(i as int)) == Ok::<
                (ProgramView, Option<FuncId>),
                LowerError,
            >((program@, main)),
        decreases context.map.len() - i,
    {
        proof {
            assert(context.map@.take(i + 1).drop_last() =~= context.map@.take(i as int));
            assert(context.map@.take(i + 1).last() == context.map@[i as int]);
            lemma_generated_prefix(context.map@, i + 1);
        }
        let item = &context.map[i];
        let blocks = match context.mir_to_bytecode(&item.mir) {
            Ok(blocks) => blocks,
            Err(e) => { return Err(e); },
        };
        program.insert(item.def_id, blocks);
        let name = item.name.as_str();
        if has_mark(name) {
            let s = name.substring_char(2, name.unicode_len()).to_owned();
            program.add_intrinsic(item.def_id, s);
        } else if item.krate == 0 && crate::mossc::program::same_name(name, "main") {
            main = Some(item.def_id);
        }
        i += 1;
    }
    assert(context.map@.take(context.map.len() as int) =~= context.map@);
    match main {
        Some(entry) => Ok((program, entry)),
        None => Err(LowerError::NoMain),
    }
}

} // verus!
