use glycerin::seccomp::{
    allowlist_filter, renderer_filter, renderer_syscalls, FilterInstruction, JUMP_IF_EQUAL, LOAD_WORD, RETURN,
    SECCOMP_RET_ALLOW, SECCOMP_RET_KILL,
};

/// Runs a filter program on a system-call number, as the kernel would for
/// the instructions these programs use.
fn run(prog: &[FilterInstruction], nr: u32) -> Option<u32> {
    let mut pc = 0usize;
    let mut acc = 0u32;
    while pc < prog.len() {
        let ins = prog[pc];
        if ins.code == LOAD_WORD && ins.k == 0 {
            acc = nr;
            pc += 1;
        } else if ins.code == JUMP_IF_EQUAL {
            pc += 1 + if acc == ins.k { ins.jt as usize } else { ins.jf as usize };
        } else if ins.code == RETURN {
            return Some(ins.k);
        } else {
            return None;
        }
    }
    None
}

#[test]
fn renderer_filter_matches_the_classic_program() {
    let prog = renderer_filter();
    assert_eq!(prog.len(), 13);
    assert_eq!(prog[0], FilterInstruction { code: 0x20, jt: 0, jf: 0, k: 0 });
    assert_eq!(prog[1], FilterInstruction { code: 0x15, jt: 0, jf: 1, k: 0 });
    assert_eq!(prog[2], FilterInstruction { code: 0x06, jt: 0, jf: 0, k: 0x7fff_ffff });
    assert_eq!(prog[4], FilterInstruction { code: 0x15, jt: 0, jf: 1, k: 1 });
    assert_eq!(prog[7], FilterInstruction { code: 0x15, jt: 0, jf: 1, k: 9 });
    assert_eq!(prog[10], FilterInstruction { code: 0x15, jt: 0, jf: 1, k: 60 });
    assert_eq!(prog[12], FilterInstruction { code: 0x06, jt: 0, jf: 0, k: 0 });
    assert_eq!(renderer_syscalls(), vec![0, 1, 9, 60]);
}

#[test]
fn renderer_filter_allows_only_read_write_mmap_exit() {
    let prog = renderer_filter();
    for nr in [0u32, 1, 9, 60] {
        assert_eq!(run(&prog, nr), Some(SECCOMP_RET_ALLOW));
    }
    for nr in [2u32, 3, 8, 10, 57, 59, 61, 231, u32::MAX] {
        assert_eq!(run(&prog, nr), Some(SECCOMP_RET_KILL));
    }
}

#[test]
fn empty_allow_list_kills_everything() {
    let prog = allowlist_filter(&vec![]);
    assert_eq!(prog, vec![FilterInstruction { code: RETURN, jt: 0, jf: 0, k: SECCOMP_RET_KILL }]);
    assert_eq!(run(&prog, 0), Some(SECCOMP_RET_KILL));
    let prog = allowlist_filter(&vec![39, 39]);
    assert_eq!(prog.len(), 7);
    assert_eq!(run(&prog, 39), Some(SECCOMP_RET_ALLOW));
    assert_eq!(run(&prog, 40), Some(SECCOMP_RET_KILL));
}
