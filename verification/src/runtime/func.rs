use vstd::prelude::*;
use vstd::string::StringExecFns;
use crate::compiler::ast::{Ast, SAst, seq_sview};
use crate::runtime::memory::storage::VarInfo;
use crate::runtime::memory::types::{Type, get_type, spec_get_type};

verus! {

/// What a reservation holds: the variable's type and its name.
pub open spec fn info_view(v: VarInfo) -> (Type, Seq<char>) {
    (v.vtype, v.name@)
}

pub open spec fn infos_view(s: Seq<VarInfo>) -> Seq<(Type, Seq<char>)> {
    s.map_values(|v: VarInfo| info_view(v))
}

/// The variable that a statement declares, if any: a variable of its declared
/// type, or a function.
pub open spec fn declared_var(a: SAst) -> Option<(Type, Seq<char>)> {
    match a {
        SAst::Statement { line, statement } => match *statement {
            SAst::DeclareVariable { array, name, vtype, value } => Some((spec_get_type(vtype), name)),
            SAst::Function { name, args, return_type, compound_statement } => Some((Type::Func, name)),
            _ => None,
        },
        _ => None,
    }
}

/// The variables that the statements `s` declare, in order.
pub open spec fn reservations(s: Seq<SAst>) -> Seq<(Type, Seq<char>)>
    decreases s.len(),
{
    if s.len() == 0 {
        Seq::empty()
    } else {
        let rest = reservations(s.drop_last());
        match declared_var(s.last()) {
            Some(v) => rest.push(v),
            None => rest,
        }
    }
}

/// The variables that a body declares: the frame of a call reserves a place
/// for each.
pub fn init_stack_res(call_stack: &Vec<Ast>) -> (reserve: Vec<VarInfo>)
    ensures
        infos_view(reserve@) == reservations(seq_sview(call_stack@)),
{
    let mut reserve: Vec<VarInfo> = Vec::new();
    let mut i: usize = 0;
    proof { crate::compiler::ast::lemma_seq_sview_len(call_stack@); }
    while i < call_stack.len()
        invariant
            i <= call_stack@.len(),
            seq_sview(call_stack@).len() == call_stack@.len(),
            infos_view(reserve@) == reservations(seq_sview(call_stack@).take(i as int)),
        decreases call_stack@.len() - i,
    {
        let ghost prev = reserve@;
        proof {
            crate::compiler::ast::lemma_seq_sview_index(call_stack@, i as int);
            assert(seq_sview(call_stack@).take(i + 1).drop_last() =~= seq_sview(call_stack@).take(i as int));
            assert(seq_sview(call_stack@).take(i + 1).last() == call_stack@[i as int].sview());
        }
        proof { reveal_with_fuel(Ast::sview, 2); }
        match &call_stack[i] {
            Ast::Statement { line: _, statement } => {
                match &**statement {
                    Ast::DeclareVariable { array: _, name, vtype, value: _ } => {
                        reserve.push(VarInfo { vtype: get_type(vtype), name: name.clone() });
                        assert(infos_view(reserve@) =~= infos_view(prev).push((spec_get_type(vtype@), name@)));
                    },
                    Ast::Function { name, args: _, return_type: _, compound_statement: _ } => {
                        reserve.push(VarInfo { vtype: Type::Func, name: name.clone() });
                        assert(infos_view(reserve@) =~= infos_view(prev).push((Type::Func, name@)));
                    },
                    _ => {},
                }
            },
            _ => {},
        }
        i = i + 1;
    }
    assert(seq_sview(call_stack@).take(call_stack@.len() as int) =~= seq_sview(call_stack@));
    reserve
}

/// A function: its body, the variables its frame reserves, its parameters,
/// its return type and its name.
pub struct GlkFuncDeclaration {
    pub call_stack: Vec<Ast>,
    pub stack_reservation: Vec<VarInfo>,
    pub args: Vec<VarInfo>,
    pub return_type: Type,
    pub name: String,
}

/// The name of the place that holds a function's result.
pub open spec fn result_slot_name() -> Seq<char> {
    "#"@
}

/// The frame of a function reserves the variables its body declares, then
/// its parameters, then (unless it returns nothing) a place for its result.
pub open spec fn func_reservation(body: Seq<SAst>, args: Seq<(Type, Seq<char>)>, return_type: Type) -> Seq<
    (Type, Seq<char>),
> {
    let base = reservations(body) + args;
    if return_type != Type::Null {
        base.push((return_type, result_slot_name()))
    } else {
        base
    }
}

impl VarInfo {
    /// A copy of the reservation.
    pub fn duplicate(&self) -> (v: VarInfo)
        ensures
            v == *self,
    {
        VarInfo { vtype: self.vtype, name: self.name.clone() }
    }
}

impl GlkFuncDeclaration {
    pub fn new(call_stack: Vec<Ast>, args: Vec<VarInfo>, return_type: Type, name: String) -> (f: Self)
        ensures
            f.call_stack == call_stack,
            f.args == args,
            f.return_type == return_type,
            f.name == name,
            infos_view(f.stack_reservation@) == func_reservation(
                seq_sview(call_stack@),
                infos_view(args@),
                return_type,
            ),
    {
        let mut stack_reservation = init_stack_res(&call_stack);
        let mut i: usize = 0;
        let ghost base = stack_reservation@;
        while i < args.len()
            invariant
                i <= args@.len(),
                infos_view(stack_reservation@) == infos_view(base) + infos_view(args@.take(i as int)),
            decreases args@.len() - i,
        {
            let ghost prev = stack_reservation@;
            stack_reservation.push(args[i].duplicate());
            assert(args@.take(i + 1) =~= args@.take(i as int).push(args@[i as int]));
            assert(infos_view(stack_reservation@) =~= infos_view(prev).push(info_view(args@[i as int])));
            assert(infos_view(args@.take(i + 1)) =~= infos_view(args@.take(i as int)).push(info_view(args@[i as int])));
            i = i + 1;
        }
        assert(args@.take(args@.len() as int) =~= args@);
        if return_type != Type::Null {
            let ghost prev = stack_reservation@;
            let result_value = VarInfo { name: String::from_str("#"), vtype: return_type };
            stack_reservation.push(result_value);
            assert(infos_view(stack_reservation@) =~= infos_view(prev).push((return_type, result_slot_name())));
        }
        GlkFuncDeclaration { call_stack, stack_reservation, args, return_type, name }
    }
}

} // verus!
