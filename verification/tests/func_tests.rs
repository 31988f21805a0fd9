use compiler::backend::block::Block;
use compiler::backend::func::Func;
use compiler::backend::inst::{Inst, UnOp};
use compiler::backend::operand::Operand;
use compiler::backend::reg::Reg;

fn new_bb(n: &str) -> Block {
    Block::new(n.to_string())
}

fn labels_of(f: &Func) -> Vec<String> {
    f.iter_bbs().iter().map(|b| b.label().clone()).collect()
}

#[test]
fn test_iter_bb_order() {
    let mut func = Func::new("main".to_string(), vec![], new_bb("entry"));
    func.push_bb(new_bb("bb1"));
    func.push_bb(new_bb("bb4"));
    func.push_bb(new_bb("bb3"));
    let bbs = func.iter_bbs();
    assert_eq!(bbs[0].label().as_str(), "entry");
    assert_eq!(bbs[1].label().as_str(), "bb1");
    assert_eq!(bbs[2].label().as_str(), "bb4");
    assert_eq!(bbs[3].label().as_str(), "bb3");
    assert!(bbs.get(4).is_none());
}

#[test]
fn test_func_new() {
    let func = Func::new("main".to_string(), vec![], new_bb("entry"));
    assert_eq!(func.name().as_str(), "main");
    assert_eq!(func.args.len(), 0);
    assert_eq!(func.entry().label().as_str(), "entry");
    assert_eq!(func.ret(), None); // default return type is void
}

#[test]
fn test_add_after() {
    let mut func = Func::new("main".to_string(), vec![], new_bb("entry"));
    func.push_bb(new_bb("bb1"));
    func.push_bb(new_bb("bb2"));

    let new_bbs = vec![new_bb("new1"), new_bb("new2")];
    func.add_after(&"entry".to_string(), new_bbs).unwrap();

    let got = labels_of(&func);
    assert_eq!(got, vec!["entry", "new1", "new2", "bb1", "bb2"]);
}

#[test]
fn test_add_after2() {
    let mut func = Func::new("main".to_string(), vec![], new_bb("entry"));
    func.push_bb(new_bb("bb1"));
    func.push_bb(new_bb("bb2"));

    let new_bbs = vec![new_bb("new1"), new_bb("new2")];
    func.add_after(&"bb1".to_string(), new_bbs).unwrap();

    let got = labels_of(&func);
    assert_eq!(got, vec!["entry", "bb1", "new1", "new2", "bb2"]);
}

#[test]
fn test_add_after3() {
    let mut func = Func::new("main".to_string(), vec![], new_bb("entry"));
    func.push_bb(new_bb("bb1"));
    func.push_bb(new_bb("bb2"));
    let new_bbs = vec![new_bb("new1"), new_bb("new2")];
    func.add_after(&"bb2".to_string(), new_bbs).unwrap();
    let got = labels_of(&func);
    assert_eq!(got, vec!["entry", "bb1", "bb2", "new1", "new2"]);
}

#[test]
fn test_dis_counter() {
    let fill_insts = |bb: &mut Block, num: usize| {
        for _ in 0..num {
            bb.push_inst(Inst::Un {
                op: UnOp::Mv,
                dst: Operand::Reg(Reg::a0()),
                src: Operand::Reg(Reg::a1()),
            });
        }
    };
    let mut func = Func::new("main".to_string(), vec![], new_bb("entry"));
    fill_insts(&mut func.entry, 3);
    let mut bb1 = new_bb("bb1");
    fill_insts(&mut bb1, 2);
    let mut bb2 = new_bb("bb2");
    fill_insts(&mut bb2, 4);
    func.push_bb(bb1);
    func.push_bb(bb2);
    let dis_counter = func.bb_distances();
    assert_eq!(
        dis_counter.distance_between(&"entry".to_string(), &"bb1".to_string()),
        Some(0)
    );
    assert_eq!(
        dis_counter.distance_between(&"entry".to_string(), &"bb2".to_string()),
        Some(2)
    );
    assert_eq!(
        dis_counter.distance_between(&"bb1".to_string(), &"bb2".to_string()),
        Some(0)
    );
    assert_eq!(
        dis_counter.distance_between(&"bb2".to_string(), &"bb1".to_string()),
        Some(6)
    );
}

fn jmp(label: &str) -> Inst {
    Inst::Jmp {
        label: label.to_string(),
    }
}

#[test]
fn test_simplify_term_drops_fall_through() {
    let mut entry = new_bb("entry");
    entry.push_inst(jmp("bb1"));
    let mut bb1 = new_bb("bb1");
    bb1.push_inst(jmp("exit"));
    let mut exit = new_bb("exit");
    exit.push_inst(Inst::Ret);
    let mut func = Func::new("main".to_string(), vec![], entry);
    func.push_bb(bb1);
    func.push_bb(exit);

    // Both jumps target the immediately following block.
    assert!(func.simplify_term());
    assert_eq!(func.entry.insts.len(), 0);
    assert_eq!(func.other_bbs[0].insts.len(), 0);
    assert_eq!(func.other_bbs[1].insts.len(), 1);
    // A second round changes nothing: the pass is idempotent.
    assert!(!func.simplify_term());
}

#[test]
fn test_round_trip_simplify_then_desimplify() {
    let mut entry = new_bb("entry");
    entry.push_inst(jmp("bb1"));
    let mut bb1 = new_bb("bb1");
    bb1.push_inst(jmp("exit"));
    let mut exit = new_bb("exit");
    exit.push_inst(Inst::Ret);
    let mut func = Func::new("main".to_string(), vec![], entry);
    func.push_bb(bb1);
    func.push_bb(exit);

    assert!(func.simplify_term());
    func.desimplify_term().unwrap();
    // Every fall-through re-emerged as an explicit jump to the same label.
    assert!(matches!(&func.entry.insts[0], Inst::Jmp { label } if label == "bb1"));
    assert!(matches!(&func.other_bbs[0].insts[0], Inst::Jmp { label } if label == "exit"));
    assert!(matches!(&func.other_bbs[1].insts[0], Inst::Ret));
}

#[test]
fn test_desimplify_fails_when_last_block_needs_jump() {
    let mut entry = new_bb("entry");
    entry.push_inst(Inst::Un {
        op: UnOp::Mv,
        dst: Operand::Reg(Reg::a0()),
        src: Operand::Reg(Reg::a1()),
    });
    let mut func = Func::new("main".to_string(), vec![], entry);
    let before = func.entry.insts.len();
    assert!(func.desimplify_term().is_err());
    // Nothing changed on the error path.
    assert_eq!(func.entry.insts.len(), before);
}

#[test]
fn test_rename_bb_label_absent_is_noop() {
    let mut entry = new_bb("entry");
    entry.push_inst(jmp("exit"));
    let mut exit = new_bb("exit");
    exit.push_inst(Inst::Ret);
    let mut func = Func::new("main".to_string(), vec![], entry);
    func.push_bb(exit);

    func.rename_bb_label(&"absent".to_string(), &"other".to_string());
    assert!(matches!(&func.entry.insts[0], Inst::Jmp { label } if label == "exit"));

    func.rename_bb_label(&"exit".to_string(), &"end".to_string());
    assert!(matches!(&func.entry.insts[0], Inst::Jmp { label } if label == "end"));
}

#[test]
fn test_elim_empty_bb() {
    let mut entry = new_bb("entry");
    entry.push_inst(jmp("mid"));
    let mid = new_bb("mid");
    let mut last = new_bb("last");
    last.push_inst(Inst::Ret);
    let mut func = Func::new("main".to_string(), vec![], entry);
    func.push_bb(mid);
    func.push_bb(last);

    assert!(func.elim_empty_bb());
    assert_eq!(func.other_bbs.len(), 1);
    assert_eq!(func.other_bbs[0].label().as_str(), "last");
    // The reference to the removed block was renamed to its successor.
    assert!(matches!(&func.entry.insts[0], Inst::Jmp { label } if label == "last"));
    assert!(!func.elim_empty_bb());
}

#[test]
fn test_merge_bb() {
    let mut entry = new_bb("entry");
    entry.push_inst(jmp("tail"));
    let mut tail = new_bb("tail");
    tail.push_inst(Inst::Ret);
    let mut func = Func::new("main".to_string(), vec![], entry);
    func.push_bb(tail);

    func.merge_bb(&"entry".to_string(), &"tail".to_string()).unwrap();
    assert_eq!(func.other_bbs.len(), 0);
    // The entry's trailing jump was dropped; the tail's return followed.
    assert_eq!(func.entry.insts.len(), 1);
    assert!(matches!(&func.entry.insts[0], Inst::Ret));

    let mut func2 = Func::new("main".to_string(), vec![], new_bb("entry"));
    assert!(func2.merge_bb(&"entry".to_string(), &"missing".to_string()).is_err());
}

#[test]
fn test_exit_bbs_and_is_caller() {
    let mut entry = new_bb("entry");
    entry.push_inst(jmp("exit"));
    let mut exit = new_bb("exit");
    exit.push_inst(Inst::Ret);
    let mut func = Func::new("main".to_string(), vec![], entry);
    func.push_bb(exit);
    let exits = func.exit_bbs();
    assert_eq!(exits.len(), 1);
    assert_eq!(exits[0].label().as_str(), "exit");
    assert!(!func.is_caller());

    func.entry.push_inst(Inst::Call {
        name: "callee".to_string(),
        arg_regs: vec![],
        def: None,
    });
    assert!(func.is_caller());
}
