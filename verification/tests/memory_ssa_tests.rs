use compiler::middle::effect::EffectAnalysis;
use compiler::middle::memory_ssa::{MemorySSA, Node};
use compiler::middle::mir::{
    CmpPred, Constant, MirBlock, MirFunc, MirInst, MirInstKind, MirModule, MirOperand, MirProgram,
    ValueType,
};
use compiler::middle::transform::load_elim::optimize_program;

fn blk(label: &str, preds: &[&str], insts: Vec<usize>) -> MirBlock {
    MirBlock {
        label: label.to_string(),
        insts,
        preds: preds.iter().map(|p| p.to_string()).collect(),
    }
}

fn func(name: &str, blocks: Vec<MirBlock>) -> MirFunc {
    MirFunc {
        name: name.to_string(),
        params: vec![],
        return_type: ValueType::Int,
        blocks,
        is_lib: false,
    }
}

fn prog(functions: Vec<MirFunc>, insts: Vec<MirInst>) -> MirProgram {
    MirProgram {
        module: MirModule {
            functions,
            global_vars: vec![],
        },
        insts,
    }
}

fn inst(name_id: u64, kind: MirInstKind) -> MirInst {
    MirInst { name_id, kind }
}

fn global(name: &str) -> MirOperand {
    MirOperand::Global(name.to_string())
}

fn cint(v: i32) -> MirOperand {
    MirOperand::Constant(Constant::Int(v))
}

fn iref(id: usize) -> MirOperand {
    MirOperand::Instruction(id)
}

fn store(val: MirOperand, ptr: MirOperand) -> MirInstKind {
    MirInstKind::Store { val, ptr }
}

fn load(ptr: MirOperand) -> MirInstKind {
    MirInstKind::Load {
        ty: ValueType::Int,
        ptr,
    }
}

fn br(target: &str) -> MirInstKind {
    MirInstKind::Br {
        target: target.to_string(),
    }
}

fn ret(val: Option<MirOperand>) -> MirInstKind {
    MirInstKind::Ret { val }
}

/// `int a = 9; int main() { a = 6; return a; }` after mem2reg and dead-code
/// elimination: one store, one load that reads it.
fn trivial_program() -> MirProgram {
    let insts = vec![
        inst(0, store(cint(6), global("a"))),      // 0
        inst(6, load(global("a"))),                // 1: %load_6
        inst(0, br("exit")),                       // 2
        inst(0, ret(Some(iref(1)))),               // 3
    ];
    let main = func(
        "main",
        vec![
            blk("entry", &[], vec![0, 1, 2]),
            blk("exit", &["entry"], vec![3]),
        ],
    );
    prog(vec![main], insts)
}

#[test]
fn test_trivial() {
    let program = trivial_program();
    let effects = EffectAnalysis::new(&program);
    let mssa = MemorySSA::new(&program, &effects);
    let expected = "MemorySSA for function: main\n\
entry:    ; preds = \n\
; 0 (liveOnEntry)\n\
; 1 = MemoryDef(0)\n\
store i32 6, ptr @a\n\
; MemoryUse(1)\n\
%load_6 = load i32, ptr @a\n\
br label %exit\n\
\n\
exit:    ; preds = entry\n\
ret i32 %load_6\n\
\n";
    assert_eq!(mssa.dump(&program), expected);
}

/// Load elimination replaces the trivial load with the stored constant and
/// drops the load from its block.
#[test]
fn test_trivial_load_elim() {
    let mut program = trivial_program();
    let effects = EffectAnalysis::new(&program);
    let mut mssa = MemorySSA::new(&program, &effects);
    optimize_program(&mut program, &mut mssa).unwrap();
    // The load is gone from the entry block and its node association too.
    assert_eq!(program.module.functions[0].blocks[0].insts, vec![0, 2]);
    assert!(mssa.get_inst_node(1).is_none());
    // The return now carries the constant 6.
    assert!(matches!(
        &program.insts[3].kind,
        MirInstKind::Ret {
            val: Some(MirOperand::Constant(Constant::Int(6)))
        }
    ));
}

#[test]
fn test_alt() {
    // if (a < 6) { a = 8; } return a;
    let insts = vec![
        inst(0, br("cond0")),                                         // 0
        inst(10, load(global("a"))),                                  // 1: %load_10
        inst(
            11,
            MirInstKind::ICmp {
                pred: CmpPred::Slt,
                lhs: iref(1),
                rhs: cint(6),
            },
        ),                                                            // 2: %icmp_11
        inst(
            0,
            MirInstKind::CondBr {
                cond: iref(2),
                then_label: "then1".to_string(),
                else_label: "alt2".to_string(),
            },
        ),                                                            // 3
        inst(0, br("final3")),                                        // 4 (alt2)
        inst(16, load(global("a"))),                                  // 5: %load_16
        inst(0, br("exit")),                                          // 6
        inst(0, ret(Some(iref(5)))),                                  // 7
        inst(0, store(cint(8), global("a"))),                         // 8 (then1)
        inst(0, br("final3")),                                        // 9
    ];
    let main = func(
        "main",
        vec![
            blk("entry", &[], vec![0]),
            blk("cond0", &["entry"], vec![1, 2, 3]),
            blk("alt2", &["cond0"], vec![4]),
            blk("final3", &["then1", "alt2"], vec![5, 6]),
            blk("exit", &["final3"], vec![7]),
            blk("then1", &["cond0"], vec![8, 9]),
        ],
    );
    let program = prog(vec![main], insts);
    let effects = EffectAnalysis::new(&program);
    let mssa = MemorySSA::new(&program, &effects);
    let expected = "MemorySSA for function: main\n\
entry:    ; preds = \n\
; 0 (liveOnEntry)\n\
br label %cond0\n\
\n\
cond0:    ; preds = entry\n\
; MemoryUse(0)\n\
%load_10 = load i32, ptr @a\n\
%icmp_11 = icmp slt i32 %load_10, 6\n\
br i1 %icmp_11, label %then1, label %alt2\n\
\n\
alt2:    ; preds = cond0\n\
br label %final3\n\
\n\
final3:    ; preds = then1, alt2\n\
; 1 = MemoryPhi([3, then1], [0, alt2])\n\
; MemoryUse(1)\n\
%load_16 = load i32, ptr @a\n\
br label %exit\n\
\n\
exit:    ; preds = final3\n\
ret i32 %load_16\n\
\n\
then1:    ; preds = cond0\n\
; 3 = MemoryDef(0)\n\
store i32 8, ptr @a\n\
br label %final3\n\
\n";
    assert_eq!(mssa.dump(&program), expected);
}

fn arr33() -> ValueType {
    ValueType::Array(
        Box::new(ValueType::Array(Box::new(ValueType::Int), 3)),
        3,
    )
}

fn arr3() -> ValueType {
    ValueType::Array(Box::new(ValueType::Int), 3)
}

fn array_program(second_last_index: i32) -> MirProgram {
    let insts = vec![
        inst(
            5,
            MirInstKind::Gep {
                base_ty: arr33(),
                ptr: global("a"),
                indices: vec![cint(0), cint(2)],
            },
        ),                                                            // 0: %getelementptr_5
        inst(
            6,
            MirInstKind::Gep {
                base_ty: arr3(),
                ptr: iref(0),
                indices: vec![cint(0), cint(2)],
            },
        ),                                                            // 1: %getelementptr_6
        inst(0, store(cint(2), iref(1))),                             // 2
        inst(8, load(global("b"))),                                   // 3: %load_8
        inst(
            9,
            MirInstKind::Gep {
                base_ty: arr33(),
                ptr: global("a"),
                indices: vec![cint(0), iref(3)],
            },
        ),                                                            // 4: %getelementptr_9
        inst(
            10,
            MirInstKind::Gep {
                base_ty: arr3(),
                ptr: iref(4),
                indices: vec![cint(0), cint(second_last_index)],
            },
        ),                                                            // 5: %getelementptr_10
        inst(0, store(cint(1), iref(5))),                             // 6
        inst(14, load(iref(1))),                                      // 7: %load_14
        inst(0, br("exit")),                                          // 8
        inst(0, ret(Some(iref(7)))),                                  // 9
    ];
    let main = func(
        "main",
        vec![
            blk("entry", &[], vec![0, 1, 2, 3, 4, 5, 6, 7, 8]),
            blk("exit", &["entry"], vec![9]),
        ],
    );
    prog(vec![main], insts)
}

#[test]
fn test_array_non_overlap() {
    let program = array_program(1);
    let effects = EffectAnalysis::new(&program);
    let mssa = MemorySSA::new(&program, &effects);
    let expected = "MemorySSA for function: main\n\
entry:    ; preds = \n\
; 0 (liveOnEntry)\n\
%getelementptr_5 = getelementptr [3 x [3 x i32]], ptr @a, i32 0, i32 2\n\
%getelementptr_6 = getelementptr [3 x i32], ptr %getelementptr_5, i32 0, i32 2\n\
; 1 = MemoryDef(0)\n\
store i32 2, ptr %getelementptr_6\n\
; MemoryUse(0)\n\
%load_8 = load i32, ptr @b\n\
%getelementptr_9 = getelementptr [3 x [3 x i32]], ptr @a, i32 0, i32 %load_8\n\
%getelementptr_10 = getelementptr [3 x i32], ptr %getelementptr_9, i32 0, i32 1\n\
; 3 = MemoryDef(1)\n\
store i32 1, ptr %getelementptr_10\n\
; MemoryUse(1)\n\
%load_14 = load i32, ptr %getelementptr_6\n\
br label %exit\n\
\n\
exit:    ; preds = entry\n\
ret i32 %load_14\n\
\n";
    assert_eq!(mssa.dump(&program), expected);
}

#[test]
fn test_array_overlap() {
    let program = array_program(2);
    let effects = EffectAnalysis::new(&program);
    let mssa = MemorySSA::new(&program, &effects);
    let expected = "MemorySSA for function: main\n\
entry:    ; preds = \n\
; 0 (liveOnEntry)\n\
%getelementptr_5 = getelementptr [3 x [3 x i32]], ptr @a, i32 0, i32 2\n\
%getelementptr_6 = getelementptr [3 x i32], ptr %getelementptr_5, i32 0, i32 2\n\
; 1 = MemoryDef(0)\n\
store i32 2, ptr %getelementptr_6\n\
; MemoryUse(0)\n\
%load_8 = load i32, ptr @b\n\
%getelementptr_9 = getelementptr [3 x [3 x i32]], ptr @a, i32 0, i32 %load_8\n\
%getelementptr_10 = getelementptr [3 x i32], ptr %getelementptr_9, i32 0, i32 2\n\
; 3 = MemoryDef(1)\n\
store i32 1, ptr %getelementptr_10\n\
; MemoryUse(3)\n\
%load_14 = load i32, ptr %getelementptr_6\n\
br label %exit\n\
\n\
exit:    ; preds = entry\n\
ret i32 %load_14\n\
\n";
    assert_eq!(mssa.dump(&program), expected);
}

fn call_program(callee_writes_a: bool) -> MirProgram {
    // void f() { [a = 9;] b = 3; }
    // int main() { a = 2; f(); return a; }
    let mut insts = vec![];
    let mut f_entry = vec![];
    if callee_writes_a {
        insts.push(inst(0, store(cint(9), global("a")))); // 0
        f_entry.push(0);
    }
    let sb = insts.len();
    insts.push(inst(0, store(cint(3), global("b"))));
    f_entry.push(sb);
    let fbr = insts.len();
    insts.push(inst(0, br("exit")));
    f_entry.push(fbr);
    let fret = insts.len();
    insts.push(inst(0, ret(None)));

    let sa = insts.len();
    insts.push(inst(0, store(cint(2), global("a"))));
    let call = insts.len();
    insts.push(inst(
        0,
        MirInstKind::Call {
            callee: "f".to_string(),
            ret_ty: ValueType::Void,
            args: vec![],
        },
    ));
    let ld = insts.len();
    insts.push(inst(
        if callee_writes_a { 13 } else { 12 },
        load(global("a")),
    ));
    let mbr = insts.len();
    insts.push(inst(0, br("exit")));
    let mret = insts.len();
    insts.push(inst(0, ret(Some(iref(ld)))));

    let mut f = func(
        "f",
        vec![
            blk("entry", &[], f_entry),
            blk("exit", &["entry"], vec![fret]),
        ],
    );
    f.return_type = ValueType::Void;
    let main = func(
        "main",
        vec![
            blk("entry", &[], vec![sa, call, ld, mbr]),
            blk("exit", &["entry"], vec![mret]),
        ],
    );
    prog(vec![f, main], insts)
}

#[test]
fn test_function_non_overlap() {
    // The callee writes only `b`, which the caller's load of `a` cannot
    // touch: the load's use skips the call and reaches the earlier store.
    let program = call_program(false);
    let effects = EffectAnalysis::new(&program);
    let mssa = MemorySSA::new(&program, &effects);
    let expected = "MemorySSA for function: f\n\
entry:    ; preds = \n\
; 0 (liveOnEntry)\n\
; 1 = MemoryDef(0)\n\
store i32 3, ptr @b\n\
br label %exit\n\
\n\
exit:    ; preds = entry\n\
ret void\n\
\n\
MemorySSA for function: main\n\
entry:    ; preds = \n\
; 2 (liveOnEntry)\n\
; 3 = MemoryDef(2)\n\
store i32 2, ptr @a\n\
; 4 = MemoryDef(3)\n\
call void @f()\n\
; MemoryUse(3)\n\
%load_12 = load i32, ptr @a\n\
br label %exit\n\
\n\
exit:    ; preds = entry\n\
ret i32 %load_12\n\
\n";
    assert_eq!(mssa.dump(&program), expected);
}

#[test]
fn test_function_overlap() {
    let program = call_program(true);
    let effects = EffectAnalysis::new(&program);
    let mssa = MemorySSA::new(&program, &effects);
    let expected = "MemorySSA for function: f\n\
entry:    ; preds = \n\
; 0 (liveOnEntry)\n\
; 1 = MemoryDef(0)\n\
store i32 9, ptr @a\n\
; 2 = MemoryDef(1)\n\
store i32 3, ptr @b\n\
br label %exit\n\
\n\
exit:    ; preds = entry\n\
ret void\n\
\n\
MemorySSA for function: main\n\
entry:    ; preds = \n\
; 3 (liveOnEntry)\n\
; 4 = MemoryDef(3)\n\
store i32 2, ptr @a\n\
; 5 = MemoryDef(4)\n\
call void @f()\n\
; MemoryUse(5)\n\
%load_13 = load i32, ptr @a\n\
br label %exit\n\
\n\
exit:    ; preds = entry\n\
ret i32 %load_13\n\
\n";
    assert_eq!(mssa.dump(&program), expected);
}

/// The structural shape of the analysis: node numbers are dense in creation
/// order, each memory-affecting instruction has at most one node, and a phi
/// carries exactly one incoming per predecessor.
#[test]
fn test_memory_ssa_structure() {
    let program = trivial_program();
    let effects = EffectAnalysis::new(&program);
    let mssa = MemorySSA::new(&program, &effects);
    for (k, node) in mssa.nodes.iter().enumerate() {
        let num = match node {
            Node::Entry { num } => *num,
            Node::Normal { num, .. } => *num,
            Node::Phi { num, .. } => *num,
        };
        assert_eq!(num, k);
    }
    // The store and the load each have exactly one node; the branch none.
    assert!(mssa.get_inst_node(0).is_some());
    assert!(mssa.get_inst_node(1).is_some());
    assert!(mssa.get_inst_node(2).is_none());
    for node in mssa.nodes.iter() {
        if let Node::Phi {
            func, block, incomings, ..
        } = node
        {
            assert_eq!(
                incomings.len(),
                program.module.functions[*func].blocks[*block].preds.len()
            );
        }
    }
}
