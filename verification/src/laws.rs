//! Engine-level laws: statements that relate several operations, each
//! proved once and for all inputs.

use vstd::prelude::*;

use crate::engine::EffectModel;
use crate::engine::MachineModel;
use crate::engine::loaded;
use crate::engine::provide_cond_spec;
use crate::engine::provide_key_spec;
use crate::engine::provide_num_spec;
use crate::engine::provide_text_spec;
use crate::engine::spec_halted;
use crate::engine::step_spec;
use crate::value::InstModel;
use crate::value::ValModel;
use crate::value::VmError;
use crate::value::resolve_in;
use crate::value::resolve_model;
use crate::value::vals_eq;

verus! {

/// Execution halts exactly when the program counter reaches the
/// instruction count, and at no other point: the halting condition is
/// the counter alone, and no step ever changes the instruction
/// sequence, so nothing else can end a run.
pub proof fn lemma_halts_exactly_at_end(m: MachineModel)
    ensures
        spec_halted(m) <==> m.pc >= m.insts.len(),
        step_spec(m) matches Ok(r) ==> r.0.insts == m.insts,
        forall|bits: u64| (#[trigger] provide_num_spec(m, bits)).insts == m.insts,
        forall|c: bool|
            #[trigger] provide_cond_spec(m, c) matches Ok(m2) ==> m2.insts == m.insts,
        forall|t: Seq<char>| (#[trigger] provide_text_spec(m, t)).insts == m.insts,
        forall|count: u64, k0: u8, k1: u8, k2: u8, k3: u8|
            (#[trigger] provide_key_spec(m, count, k0, k1, k2, k3)).insts == m.insts,
{
}

/// Declaring a `Number` and then printing through a `Pointer` to its
/// address asks the environment for the text of exactly the declared
/// bit pattern, and whatever text comes back is reproduced in the
/// output verbatim.
pub proof fn lemma_declare_then_print(n: u64, text: Seq<char>)
    ensures
        ({
            let prog = seq![
                InstModel { opcode: 0, args: seq![ValModel::Num(n)] },
                InstModel { opcode: 254, args: seq![ValModel::Ptr(0)] },
            ];
            let m0 = loaded(prog);
            &&& step_spec(m0) matches Ok(r1) && r1.1 == EffectModel::Quiet
            &&& step_spec(step_spec(m0)->Ok_0.0) matches Ok(r2) && r2.1 == (EffectModel::NeedText {
                bits: n,
            })
            &&& provide_text_spec(step_spec(step_spec(m0)->Ok_0.0)->Ok_0.0, text).out == text
        }),
{
    reveal_with_fuel(resolve_model, 3);
    let prog = seq![
        InstModel { opcode: 0, args: seq![ValModel::Num(n)] },
        InstModel { opcode: 254, args: seq![ValModel::Ptr(0)] },
    ];
    let m0 = loaded(prog);
    let m1 = step_spec(m0)->Ok_0.0;
    assert(m1.store =~= seq![ValModel::Num(n)]);
    assert(step_spec(m1) matches Ok(r2) && r2.1 == (EffectModel::NeedText { bits: n }));
    let m2 = step_spec(m1)->Ok_0.0;
    assert(provide_text_spec(m2, text).out =~= Seq::<char>::empty() + text);
    assert(Seq::<char>::empty() + text =~= text);
}

/// Structural equality is strict about variants: a `Number` and a
/// `Byte` are never equal, whatever their magnitudes; at a
/// `JumpIfEqual` on such a pair the branch is not taken, whatever the
/// jump target.
pub proof fn lemma_number_byte_never_equal(x: u64, y: u8, t: u64)
    ensures
        !vals_eq(ValModel::Num(x), ValModel::Byte(y)),
        !vals_eq(ValModel::Byte(y), ValModel::Num(x)),
        ({
            let m0 = loaded(
                seq![
                    InstModel {
                        opcode: 7,
                        args: seq![ValModel::Num(x), ValModel::Byte(y), ValModel::Uint(t)],
                    },
                ],
            );
            step_spec(m0) matches Ok(r) && r.1 == EffectModel::Quiet && r.0.pc == 1
        }),
{
    reveal_with_fuel(resolve_model, 2);
}

/// Pointer resolution is transitive: with a non-pointer value at
/// address 0 and a `Pointer` to 0 at address 1, resolving a `Pointer`
/// to 1 yields the value stored at address 0 itself, never a pointer.
pub proof fn lemma_transitive_resolution(store: Seq<ValModel>, v: ValModel)
    requires
        store.len() >= 2,
        store[0] == v,
        !(v is Ptr),
        store[1] == ValModel::Ptr(0),
    ensures
        resolve_in(store, ValModel::Ptr(1)) == Ok::<ValModel, VmError>(v),
{
    reveal_with_fuel(resolve_model, 4);
}

} // verus!
