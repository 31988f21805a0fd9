use compiler::backend::block::Block;
use compiler::backend::builder::IRBuilder;
use compiler::backend::checker::CheckValidInst;
use compiler::backend::func::Func;
use compiler::backend::inst::{BinOp, Inst, MemOp, UnOp};
use compiler::backend::maps::{NameU32Map, RegMap, SlotMap, ValueKey};
use compiler::backend::operand::{imm_in_limit, Operand};
use compiler::backend::reg::{Reg, RegGenerator};
use compiler::backend::stack::StackAllocator;
use compiler::backend::tight_term::TightTerm;
use compiler::error::CompileError;
use compiler::middle::mir::{Dims, MirBlock, MirFunc, MirInst, MirInstKind, MirOperand, MirParam, ValueType};

fn reg(id: u64, usual: bool) -> Reg {
    Reg { id, usual }
}

#[test]
fn test_imm_in_limit_branch_field() {
    assert!(imm_in_limit(2047, 12));
    assert!(imm_in_limit(-2048, 12));
    assert!(!imm_in_limit(2048, 12));
    assert!(!imm_in_limit(-2049, 12));
    assert!(imm_in_limit(0, 12));
}

#[test]
fn test_fmm_lit_label() {
    let bits = (1.0f64).to_bits();
    assert_eq!(
        IRBuilder::fmm_lit_label_from(bits).as_str(),
        "_fc_3ff0000000000000"
    );
    assert_eq!(IRBuilder::fmm_lit_label_from(0).as_str(), "_fc_0");
}

#[test]
fn test_label_name_from() {
    assert_eq!(IRBuilder::label_name_from(0).as_str(), ".LBB0");
    assert_eq!(IRBuilder::label_name_from(1234).as_str(), ".LBB1234");
}

#[test]
fn test_check_valid_rejects_pre_lowered() {
    let ld = Inst::Load {
        dst: reg(40, true),
        slot: compiler::backend::stack::StackSlot { start: 0, size: 8 },
    };
    assert!(!ld.check_valid());
    let li = Inst::Li {
        dst: Operand::Reg(reg(40, true)),
        src: Operand::Imm(7),
    };
    assert!(li.check_valid());
    let bad_li = Inst::Li {
        dst: Operand::Imm(1),
        src: Operand::Imm(7),
    };
    assert!(!bad_li.check_valid());
    let mul = Inst::Bin {
        op: BinOp::Mul,
        dst: Operand::Reg(reg(40, true)),
        lhs: Operand::Reg(reg(41, true)),
        rhs: Operand::Imm(3),
    };
    assert!(!mul.check_valid());
}

#[test]
fn test_tight_term_checker() {
    let checker = TightTerm;
    let mut ok1 = Block::new("b".to_string());
    ok1.push_inst(Inst::Ret);
    assert!(checker.check_bb(&ok1));

    let mut ok2 = Block::new("b".to_string());
    ok2.push_inst(Inst::Br {
        op: compiler::backend::inst::BrOp::Beq,
        lhs: reg(40, true),
        rhs: reg(41, true),
        label: "t".to_string(),
    });
    ok2.push_inst(Inst::Jmp {
        label: "e".to_string(),
    });
    assert!(checker.check_bb(&ok2));

    let empty = Block::new("b".to_string());
    assert!(!checker.check_bb(&empty));

    let mut bad = Block::new("b".to_string());
    bad.push_inst(Inst::Ret);
    bad.push_inst(Inst::Li {
        dst: Operand::Reg(reg(40, true)),
        src: Operand::Imm(1),
    });
    assert!(!checker.check_bb(&bad));
}

#[test]
fn test_prepare_rs2_i_keeps_small_and_widens_large() {
    let mut gener = RegGenerator::new();
    let regs = RegMap::new();
    let small = compiler::middle::mir::MirOperand::Constant(
        compiler::middle::mir::Constant::Int(100),
    );
    let (op, insts) = IRBuilder::prepare_rs2_i(&small, &mut gener, &regs).unwrap();
    assert!(matches!(op, Operand::Imm(100)));
    assert!(insts.is_empty());

    let wide = compiler::middle::mir::MirOperand::Constant(
        compiler::middle::mir::Constant::Int(70000),
    );
    let (op2, insts2) = IRBuilder::prepare_rs2_i(&wide, &mut gener, &regs).unwrap();
    assert!(matches!(op2, Operand::Reg(Reg { id: 32, usual: true })));
    assert_eq!(insts2.len(), 1);
    assert!(matches!(
        &insts2[0],
        Inst::Li {
            dst: Operand::Reg(Reg { id: 32, usual: true }),
            src: Operand::Imm(70000),
        }
    ));
}

#[test]
fn test_new_var_rejects_void() {
    let mut gener = RegGenerator::new();
    assert_eq!(
        IRBuilder::new_var(&ValueType::Void, &mut gener),
        Err(CompileError::UnsupportedIR)
    );
    let r = IRBuilder::new_var(&ValueType::Float, &mut gener).unwrap();
    assert_eq!(r, reg(32, false));
}

#[test]
fn test_stack_slot_from_misses() {
    let slots = SlotMap::new();
    let op = compiler::middle::mir::MirOperand::Instruction(5);
    assert_eq!(
        IRBuilder::stack_slot_from(&op, &slots),
        Err(CompileError::LookupMiss)
    );
    let g = compiler::middle::mir::MirOperand::Global("a".to_string());
    assert_eq!(
        IRBuilder::stack_slot_from(&g, &slots),
        Err(CompileError::UnsupportedIR)
    );
}

#[test]
fn test_dims_size_overflow_is_caught() {
    let huge = Dims::Array(
        Box::new(Dims::Array(Box::new(Dims::Scalar), usize::MAX)),
        usize::MAX,
    );
    assert_eq!(huge.size_checked(), None);
    let small = Dims::Array(Box::new(Dims::Array(Box::new(Dims::Scalar), 4)), 3);
    assert_eq!(small.size_checked(), Some(12));
}

/// Ten integer parameters: the first eight ride in A0..A7, the ninth and
/// tenth load from the caller's frame at S0+0 and S0+8, and the overflow
/// area is sixteen bytes.
#[test]
fn test_overflow_parameters() {
    let params: Vec<MirParam> = (0..10)
        .map(|i| MirParam {
            name: format!("p{}", i),
            ty: ValueType::Int,
        })
        .collect();
    let mut gener = RegGenerator::new();
    let mut regs = RegMap::new();
    let (insts, crs) = IRBuilder::build_params(&params, &mut gener, &mut regs).unwrap();
    assert_eq!(crs, 16);
    assert_eq!(insts.len(), 10);
    for i in 0..8u64 {
        assert!(matches!(
            &insts[i as usize],
            Inst::Un { op: UnOp::Mv, dst: Operand::Reg(d), src: Operand::Reg(s) }
                if *d == reg(32 + i, true) && *s == reg(10 + i, true)
        ));
    }
    assert!(matches!(
        &insts[8],
        Inst::Mem { op: MemOp::Ld, reg: r, offset: 0, base: b }
            if *r == reg(40, true) && *b == reg(8, true)
    ));
    assert!(matches!(
        &insts[9],
        Inst::Mem { op: MemOp::Ld, reg: r, offset: 8, base: b }
            if *r == reg(41, true) && *b == reg(8, true)
    ));
    // The bindings point at the fresh registers.
    assert_eq!(regs.get(ValueKey::Param(0)), Some(reg(32, true)));
    assert_eq!(regs.get(ValueKey::Param(9)), Some(reg(41, true)));
}

/// Address lowering of `a[i][j]` for `int a[3][4]`: the first index scales
/// by the whole element shape (twelve leaves), the second by the inner row
/// (four), the sum shifts left by two to reach bytes.
#[test]
fn test_gep_of_nested_array() {
    let ty = ValueType::Array(Box::new(ValueType::Array(Box::new(ValueType::Int), 4)), 3);
    let dims = IRBuilder::dims_from_ty(&ty).unwrap();
    assert_eq!(dims.size_checked(), Some(12));

    let mut gener = RegGenerator::new();
    let mut regs = RegMap::new();
    regs.insert(ValueKey::Inst(0), reg(100, true)); // i
    regs.insert(ValueKey::Inst(1), reg(101, true)); // j
    let i_op = compiler::middle::mir::MirOperand::Instruction(0);
    let j_op = compiler::middle::mir::MirOperand::Instruction(1);

    let (first, insts) =
        IRBuilder::process_first_idx(&i_op, &dims, &mut gener, &regs).unwrap();
    assert_eq!(first, Some(reg(33, true)));
    assert_eq!(insts.len(), 2);
    assert!(matches!(
        &insts[0],
        Inst::Li { dst: Operand::Reg(d), src: Operand::Imm(12) } if *d == reg(32, true)
    ));
    assert!(matches!(
        &insts[1],
        Inst::Bin { op: BinOp::Mul, dst: Operand::Reg(d), lhs: Operand::Reg(l), rhs: Operand::Reg(r) }
            if *d == reg(33, true) && *l == reg(100, true) && *r == reg(32, true)
    ));

    let (to_add, nd, insts2) =
        IRBuilder::process_sub_idx(&j_op, &dims, &mut gener, &regs).unwrap();
    assert!(matches!(to_add, Operand::Reg(Reg { id: 35, usual: true })));
    assert!(nd.is_some());
    assert_eq!(insts2.len(), 2);
    assert!(matches!(
        &insts2[0],
        Inst::Li { dst: Operand::Reg(d), src: Operand::Imm(4) } if *d == reg(34, true)
    ));
    assert!(matches!(
        &insts2[1],
        Inst::Bin { op: BinOp::Mul, dst: Operand::Reg(d), lhs: Operand::Reg(l), rhs: Operand::Reg(r) }
            if *d == reg(35, true) && *l == reg(101, true) && *r == reg(34, true)
    ));

    // The whole offset ends with the byte shift.
    let mut gener2 = RegGenerator::new();
    let indices = vec![i_op, j_op];
    let (off, all) = IRBuilder::prepare_offset(&dims, &indices, &mut gener2, &regs).unwrap();
    assert!(matches!(
        all.last().unwrap(),
        Inst::Bin { op: BinOp::Sll, dst: Operand::Reg(d), rhs: Operand::Imm(2), .. } if *d == off
    ));
}

/// A constant later index adds a compile-time element offset: index two of
/// a row of four leaves is eight leaves in.
#[test]
fn test_gep_constant_sub_index() {
    let ty = ValueType::Array(Box::new(ValueType::Array(Box::new(ValueType::Int), 4)), 3);
    let dims = IRBuilder::dims_from_ty(&ty).unwrap();
    let mut gener = RegGenerator::new();
    let regs = RegMap::new();
    let k = compiler::middle::mir::MirOperand::Constant(
        compiler::middle::mir::Constant::Int(2),
    );
    let (to_add, nd, insts) =
        IRBuilder::process_sub_idx(&k, &dims, &mut gener, &regs).unwrap();
    assert!(matches!(to_add, Operand::Imm(8)));
    assert!(insts.is_empty());
    assert_eq!(nd, Some(Dims::Array(Box::new(Dims::Scalar), 4)));
}

#[test]
fn test_call_lowering_binds_result() {
    let mut gener = RegGenerator::new();
    let mut regs = RegMap::new();
    let mut fmms = compiler::backend::maps::FmmMap::new();
    let slots = SlotMap::new();
    let args = vec![
        compiler::middle::mir::MirOperand::Constant(compiler::middle::mir::Constant::Int(5)),
    ];
    let insts = IRBuilder::build_call_inst(
        &"g".to_string(),
        &ValueType::Int,
        &args,
        7,
        &slots,
        &mut gener,
        &mut regs,
        &mut fmms,
    )
    .unwrap();
    // Argument in A0, the call, then the result moved out of A0.
    assert!(matches!(
        &insts[0],
        Inst::Li { dst: Operand::Reg(d), src: Operand::Imm(5) } if *d == reg(10, true)
    ));
    assert!(matches!(
        &insts[insts.len() - 2],
        Inst::Call { name, def: Some(d), .. } if name == "g" && *d == reg(10, true)
    ));
    assert!(matches!(
        &insts[insts.len() - 1],
        Inst::Un { op: UnOp::Mv, src: Operand::Reg(s), .. } if *s == reg(10, true)
    ));
    let bound = regs.get(ValueKey::Inst(7)).unwrap();
    assert!(bound.usual && bound.id >= 32);
}

#[test]
fn test_memset_rewrite() {
    let mut gener = RegGenerator::new();
    let mut regs = RegMap::new();
    let mut fmms = compiler::backend::maps::FmmMap::new();
    let slots = SlotMap::new();
    let args = vec![
        compiler::middle::mir::MirOperand::Constant(compiler::middle::mir::Constant::Int(1)),
        compiler::middle::mir::MirOperand::Constant(compiler::middle::mir::Constant::Int(0)),
        compiler::middle::mir::MirOperand::Constant(compiler::middle::mir::Constant::Int(36)),
        compiler::middle::mir::MirOperand::Constant(compiler::middle::mir::Constant::Bool(false)),
    ];
    let insts = IRBuilder::build_call_inst(
        &"llvm.memset.p0.i64".to_string(),
        &ValueType::Void,
        &args,
        9,
        &slots,
        &mut gener,
        &mut regs,
        &mut fmms,
    )
    .unwrap();
    assert_eq!(insts.len(), 4);
    assert!(matches!(
        &insts[3],
        Inst::Call { name, def: Some(d), .. } if name == "memset" && *d == reg(10, true)
    ));
}

/// Caller-save propagation: a call's callee need never passes the calling
/// function's recorded maximum.
#[test]
fn test_prepare_max_callee_regs_stack() {
    let mut entry = Block::new("entry".to_string());
    entry.push_inst(Inst::Call {
        name: "g".to_string(),
        arg_regs: vec![],
        def: None,
    });
    entry.push_inst(Inst::Call {
        name: "h".to_string(),
        arg_regs: vec![],
        def: None,
    });
    entry.push_inst(Inst::Ret);
    let f = Func::new("f".to_string(), vec![], entry);
    let funcs = vec![f];
    let mut caller_map = NameU32Map::new();
    caller_map.insert("g".to_string(), 24);
    caller_map.insert("h".to_string(), 8);
    let max_map = IRBuilder::prepare_max_callee_regs_stack(&funcs, &caller_map);
    assert_eq!(max_map.get(&"f".to_string()), Some(24));
}

/// Stack reallocation: the outgoing-argument area sits at offset zero, the
/// most-touched slot comes right after it, and every rewritten instruction
/// references a slot of the new allocator.
#[test]
fn test_realloc_stack_slots() {
    let mut alloc = StackAllocator::new();
    let s0 = alloc.allocate(8);
    let s1 = alloc.allocate(4);
    let mut entry = Block::new("entry".to_string());
    entry.push_inst(Inst::Store {
        src: reg(40, true),
        slot: s0,
    });
    entry.push_inst(Inst::Load {
        dst: reg(41, true),
        slot: s1,
    });
    entry.push_inst(Inst::Load {
        dst: reg(42, true),
        slot: s1,
    });
    entry.push_inst(Inst::Ret);
    let mut f = Func::new("main".to_string(), vec![], entry);
    f.set_stack_allocator(Some(alloc));
    let mut funcs = vec![f];
    let mut max_map = NameU32Map::new();
    max_map.insert("main".to_string(), 16);
    IRBuilder::realloc_stack_slots(&mut funcs, &max_map).unwrap();
    let f2 = &funcs[0];
    let new_alloc = f2.stack_allocator().as_ref().unwrap();
    // Outgoing area (16) + the two slots (4 + 8).
    assert_eq!(new_alloc.used, 28);
    // The most-touched slot lands right after the outgoing area.
    assert!(matches!(
        &f2.entry.insts[1],
        Inst::Load { slot, .. } if slot.start == 16 && slot.size == 4
    ));
    assert!(matches!(
        &f2.entry.insts[0],
        Inst::Store { slot, .. } if slot.start == 20 && slot.size == 8
    ));
    // Every referenced slot exists in the new allocator.
    for inst in f2.entry.insts.iter() {
        if let Some(slot) = inst.stack_slot() {
            assert!(slot.start + slot.size <= new_alloc.used);
        }
    }
}

/// Label uniquification: `L` of function `F` becomes `F_L`, targets
/// follow, and labels of different functions can no longer collide.
#[test]
fn test_label_uniquification() {
    let mut entry = Block::new("entry".to_string());
    entry.push_inst(Inst::Jmp {
        label: "exit".to_string(),
    });
    let mut exit = Block::new("exit".to_string());
    exit.push_inst(Inst::Ret);
    let mut f = Func::new("main".to_string(), vec![], entry);
    f.push_bb(exit);

    let mut entry2 = Block::new("entry".to_string());
    entry2.push_inst(Inst::Ret);
    let g = Func::new("helper".to_string(), vec![], entry2);

    let mut funcs = vec![f, g];
    IRBuilder::rename_bb_label(&mut funcs);
    assert_eq!(funcs[0].entry.label().as_str(), "main_entry");
    assert_eq!(funcs[0].other_bbs[0].label().as_str(), "main_exit");
    assert_eq!(funcs[1].entry.label().as_str(), "helper_entry");
    assert!(matches!(
        &funcs[0].entry.insts[0],
        Inst::Jmp { label } if label == "main_exit"
    ));
}

#[test]
fn test_build_func_sets_return_register() {
    let insts = vec![MirInst {
        name_id: 0,
        kind: MirInstKind::Ret {
            val: Some(MirOperand::Constant(compiler::middle::mir::Constant::Int(3))),
        },
    }];
    let f = MirFunc {
        name: "main".to_string(),
        params: vec![],
        return_type: ValueType::Int,
        blocks: vec![MirBlock {
            label: "entry".to_string(),
            insts: vec![0],
            preds: vec![],
        }],
        is_lib: false,
    };
    let mut fmms = compiler::backend::maps::FmmMap::new();
    let (built, crs) = IRBuilder::build_func(&f, &insts, &mut fmms).unwrap();
    assert_eq!(built.name().as_str(), "main");
    assert_eq!(crs, 0);
    assert_eq!(built.ret(), Some(reg(10, true)));
    // The lowered entry ends with the return, and the value rode in A0.
    let got = &built.entry.insts;
    assert!(matches!(got.last().unwrap(), Inst::Ret));
    assert!(matches!(
        &got[got.len() - 2],
        Inst::Li { dst: Operand::Reg(d), src: Operand::Imm(3) } if *d == reg(10, true)
    ));
}

/// The float-literal pool: a constant is interned once under its bit
/// pattern and later uses reuse the same pool name.
#[test]
fn test_prepare_fmm_interns_once() {
    let mut gener = RegGenerator::new();
    let mut fmms = compiler::backend::maps::FmmMap::new();
    let bits = (2.5f64).to_bits();
    let (r1, insts1) = IRBuilder::prepare_fmm(bits, &mut gener, &mut fmms);
    assert!(!r1.usual);
    assert_eq!(insts1.len(), 2);
    assert_eq!(fmms.entries.len(), 1);
    let name1 = fmms.entries[0].1.name.clone();
    assert_eq!(name1, IRBuilder::fmm_lit_label_from(bits));
    let (_r2, insts2) = IRBuilder::prepare_fmm(bits, &mut gener, &mut fmms);
    // Still one pool entry; the second load addresses the same label.
    assert_eq!(fmms.entries.len(), 1);
    assert!(matches!(
        &insts2[0],
        Inst::Lla { label, .. } if *label == name1
    ));
}

/// One float literal used by two functions is interned once: the lowered
/// module carries a single float global for it, under its pool label.
#[test]
fn test_float_literal_pool_shared_across_funcs() {
    let bits = (1.5f64).to_bits();
    let ret_float = |name_id: u64| MirInst {
        name_id,
        kind: MirInstKind::Ret {
            val: Some(MirOperand::Constant(
                compiler::middle::mir::Constant::Float(bits),
            )),
        },
    };
    let insts = vec![ret_float(0), ret_float(1)];
    let mk = |name: &str, inst: usize| MirFunc {
        name: name.to_string(),
        params: vec![],
        return_type: ValueType::Float,
        blocks: vec![MirBlock {
            label: "entry".to_string(),
            insts: vec![inst],
            preds: vec![],
        }],
        is_lib: false,
    };
    let program = compiler::middle::mir::MirProgram {
        module: compiler::middle::mir::MirModule {
            functions: vec![mk("f", 0), mk("main", 1)],
            global_vars: vec![],
        },
        insts,
    };
    let module = IRBuilder::gen_from_mir_module(&program).unwrap();
    assert_eq!(module.funcs.len(), 2);
    assert_eq!(module.global.len(), 1);
    match &module.global[0] {
        compiler::backend::module::Var::Float(fv) => {
            assert_eq!(fv.init, Some(bits));
            assert_eq!(fv.name, IRBuilder::fmm_lit_label_from(bits));
        }
        other => panic!("expected a float pool entry, got {:?}", other),
    }
}

/// Desimplification leaves every block tight: a lone conditional branch
/// gains the explicit jump to the next block.
#[test]
fn test_desimplify_makes_blocks_tight() {
    let checker = TightTerm;
    let mut entry = Block::new("entry".to_string());
    entry.push_inst(Inst::Br {
        op: compiler::backend::inst::BrOp::Bne,
        lhs: reg(40, true),
        rhs: reg(0, true),
        label: "exit".to_string(),
    });
    let mut exit = Block::new("exit".to_string());
    exit.push_inst(Inst::Ret);
    let mut func = Func::new("main".to_string(), vec![], entry);
    func.push_bb(exit);
    assert!(!checker.check_bb(&func.entry));
    func.desimplify_term().unwrap();
    assert!(checker.check_bb(&func.entry));
    assert!(checker.check_bb(&func.other_bbs[0]));
    assert!(matches!(
        &func.entry.insts[1],
        Inst::Jmp { label } if label == "exit"
    ));
}

/// The register survey: every mentioned register shows up once, and the
/// virtual filter keeps only the minted ones.
#[test]
fn test_regs_and_v_regs() {
    let mut entry = Block::new("entry".to_string());
    entry.push_inst(Inst::Un {
        op: UnOp::Mv,
        dst: Operand::Reg(reg(40, true)),
        src: Operand::Reg(reg(10, true)),
    });
    entry.push_inst(Inst::Un {
        op: UnOp::Mv,
        dst: Operand::Reg(reg(40, true)),
        src: Operand::Reg(reg(41, true)),
    });
    entry.push_inst(Inst::Ret);
    let func = Func::new("main".to_string(), vec![], entry);
    let mut all = func.regs();
    all.sort_by_key(|r| r.id);
    assert_eq!(all, vec![reg(10, true), reg(40, true), reg(41, true)]);
    let mut virt = func.v_regs();
    virt.sort_by_key(|r| r.id);
    assert_eq!(virt, vec![reg(40, true), reg(41, true)]);
}

/// End to end: the trivial program lowers to one function whose labels are
/// globally unique and whose frame was rebuilt.
#[test]
fn test_gen_from_mir_module() {
    let insts = vec![
        MirInst {
            name_id: 0,
            kind: MirInstKind::Store {
                val: MirOperand::Constant(compiler::middle::mir::Constant::Int(6)),
                ptr: MirOperand::Global("a".to_string()),
            },
        },
        MirInst {
            name_id: 6,
            kind: MirInstKind::Load {
                ty: ValueType::Int,
                ptr: MirOperand::Global("a".to_string()),
            },
        },
        MirInst {
            name_id: 0,
            kind: MirInstKind::Br {
                target: "exit".to_string(),
            },
        },
        MirInst {
            name_id: 0,
            kind: MirInstKind::Ret {
                val: Some(MirOperand::Instruction(1)),
            },
        },
    ];
    let program = compiler::middle::mir::MirProgram {
        module: compiler::middle::mir::MirModule {
            functions: vec![MirFunc {
                name: "main".to_string(),
                params: vec![],
                return_type: ValueType::Int,
                blocks: vec![
                    MirBlock {
                        label: "entry".to_string(),
                        insts: vec![0, 1, 2],
                        preds: vec![],
                    },
                    MirBlock {
                        label: "exit".to_string(),
                        insts: vec![3],
                        preds: vec!["entry".to_string()],
                    },
                ],
                is_lib: false,
            }],
            global_vars: vec![compiler::middle::mir::MirGlobal {
                name: "a".to_string(),
                ty: ValueType::Int,
                init: vec![9],
            }],
        },
        insts,
    };
    let module = IRBuilder::gen_from_mir_module(&program).unwrap();
    assert_eq!(module.name.as_str(), "main");
    assert_eq!(module.funcs.len(), 1);
    assert_eq!(module.global.len(), 1);
    let f = &module.funcs[0];
    assert_eq!(f.entry.label().as_str(), "main_entry");
    assert_eq!(f.other_bbs[0].label().as_str(), "main_exit");
    assert!(f.stack_allocator().is_some());
    assert!(matches!(
        f.entry.insts.last().unwrap(),
        Inst::Jmp { label } if label == "main_exit"
    ));
}

/// A first index over an element shape too large for an immediate is a
/// range error; a memset intrinsic with the wrong operand count is a
/// structural violation.
#[test]
fn test_error_variants() {
    let huge = Dims::Array(
        Box::new(Dims::Array(Box::new(Dims::Scalar), usize::MAX)),
        usize::MAX,
    );
    let mut gener = RegGenerator::new();
    let regs = RegMap::new();
    let one = compiler::middle::mir::MirOperand::Constant(
        compiler::middle::mir::Constant::Int(1),
    );
    assert_eq!(
        IRBuilder::process_first_idx(&one, &huge, &mut gener, &regs),
        Err(CompileError::Range)
    );

    let mut fmms = compiler::backend::maps::FmmMap::new();
    let slots = SlotMap::new();
    let three = vec![
        compiler::middle::mir::MirOperand::Constant(compiler::middle::mir::Constant::Int(1)),
        compiler::middle::mir::MirOperand::Constant(compiler::middle::mir::Constant::Int(0)),
        compiler::middle::mir::MirOperand::Constant(compiler::middle::mir::Constant::Int(4)),
    ];
    assert_eq!(
        IRBuilder::build_call_inst(
            &"llvm.memset.p0.i64".to_string(),
            &ValueType::Void,
            &three,
            0,
            &slots,
            &mut gener,
            &mut RegMap::new(),
            &mut fmms,
        ),
        Err(CompileError::StructuralViolation)
    );
}

#[test]
fn test_operand_sources() {
    let mut regs = RegMap::new();
    regs.insert(ValueKey::Param(0), reg(50, true));
    regs.insert(ValueKey::Inst(3), reg(51, true));
    let p = MirOperand::Parameter(0);
    let i3 = MirOperand::Instruction(3);
    let g = MirOperand::Global("glob".to_string());
    assert_eq!(
        IRBuilder::no_load_from(&p, &regs),
        Ok(Operand::Reg(reg(50, true)))
    );
    assert_eq!(
        IRBuilder::no_load_from(&i3, &regs),
        Ok(Operand::Reg(reg(51, true)))
    );
    assert_eq!(
        IRBuilder::no_load_from(&g, &regs),
        Err(CompileError::UnsupportedIR)
    );
    assert_eq!(IRBuilder::global_from(&g), Ok("glob".to_string()));
    assert_eq!(
        IRBuilder::global_from(&p),
        Err(CompileError::UnsupportedIR)
    );
    assert_eq!(
        IRBuilder::prepare_cond(&i3, &regs).map(|(r, _)| r),
        Ok(reg(51, true))
    );
    assert_eq!(
        IRBuilder::prepare_cond(&g, &regs).map(|(r, _)| r),
        Err(CompileError::UnsupportedIR)
    );
}
