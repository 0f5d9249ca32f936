//! The system-call filter that confines the renderer process: a classic BPF
//! program, in the shape the kernel's seccomp mode takes it, that lets the
//! listed system calls through and kills the process on any other.
use vstd::prelude::*;

verus! {

/// `BPF_LD | BPF_W | BPF_ABS`: load the word at offset `k` of the call's data.
pub const LOAD_WORD: u16 = 0x20;

/// `BPF_JMP | BPF_JEQ | BPF_K`: skip `jt` instructions when the accumulator
/// equals `k`, else `jf`.
pub const JUMP_IF_EQUAL: u16 = 0x15;

/// `BPF_RET | BPF_K`: end with the verdict `k`.
pub const RETURN: u16 = 0x06;

/// The verdict that lets a system call through.
pub const SECCOMP_RET_ALLOW: u32 = 0x7fff_ffff;

/// The verdict that kills the calling process.
pub const SECCOMP_RET_KILL: u32 = 0;

/// One instruction of a filter program.
#[derive(Clone, Copy, Debug, PartialEq, Eq, Structural)]
pub struct FilterInstruction {
    pub code: u16,
    pub jt: u8,
    pub jf: u8,
    pub k: u32,
}

/// Where the conditional jump `ins` at `pc` goes with `acc` in the accumulator.
pub open spec fn jump_target(ins: FilterInstruction, pc: int, acc: u32) -> int {
    if acc == ins.k {
        pc + 1 + ins.jt
    } else {
        pc + 1 + ins.jf
    }
}

/// The verdict of `prog` on system call `nr`, run from instruction `pc` with
/// `acc` in the accumulator: `None` where the program leaves this subset
/// (another instruction, another offset) or runs off its end. Offset 0 of a
/// call's data is its number.
pub open spec fn verdict_from(prog: Seq<FilterInstruction>, nr: u32, pc: int, acc: u32) -> Option<u32>
    decreases prog.len() - pc,
{
    if pc < 0 || pc >= prog.len() {
        None
    } else {
        let ins = prog[pc];
        if ins.code == LOAD_WORD && ins.k == 0 {
            verdict_from(prog, nr, pc + 1, nr)
        } else if ins.code == JUMP_IF_EQUAL {
            let target = jump_target(ins, pc, acc);
            if target >= prog.len() {
                None
            } else {
                verdict_from(prog, nr, target, acc)
            }
        } else if ins.code == RETURN {
            Some(ins.k)
        } else {
            None
        }
    }
}

/// The verdict of `prog` on system call `nr`.
pub open spec fn verdict(prog: Seq<FilterInstruction>, nr: u32) -> Option<u32> {
    verdict_from(prog, nr, 0, 0)
}

/// Load the call's number; if it is `nr`, allow the call.
pub open spec fn allow_block(nr: u32) -> Seq<FilterInstruction> {
    seq![
        FilterInstruction { code: LOAD_WORD, jt: 0, jf: 0, k: 0 },
        FilterInstruction { code: JUMP_IF_EQUAL, jt: 0, jf: 1, k: nr },
        FilterInstruction { code: RETURN, jt: 0, jf: 0, k: SECCOMP_RET_ALLOW },
    ]
}

/// The program for an allow list: one block per listed call, in order, then
/// a final instruction that kills.
pub open spec fn allowlist_program(allowed: Seq<u32>) -> Seq<FilterInstruction>
    decreases allowed.len(),
{
    if allowed.len() == 0 {
        seq![FilterInstruction { code: RETURN, jt: 0, jf: 0, k: SECCOMP_RET_KILL }]
    } else {
        allow_block(allowed[0]) + allowlist_program(allowed.drop_first())
    }
}

/// The verdict of an allow list: allow exactly the listed calls.
pub open spec fn allowlist_verdict(allowed: Seq<u32>, nr: u32) -> u32 {
    if allowed.contains(nr) {
        SECCOMP_RET_ALLOW
    } else {
        SECCOMP_RET_KILL
    }
}

/// Running `p + q` from inside `q` is running `q`: its jumps are relative.
proof fn lemma_run_suffix(p: Seq<FilterInstruction>, q: Seq<FilterInstruction>, nr: u32, i: int, acc: u32)
    requires
        0 <= i,
    ensures
        verdict_from(p + q, nr, p.len() + i, acc) == verdict_from(q, nr, i, acc),
    decreases q.len() - i,
{
    if i < q.len() {
        let ins = q[i];
        assert((p + q)[p.len() + i] == ins);
        if ins.code == LOAD_WORD && ins.k == 0 {
            lemma_run_suffix(p, q, nr, i + 1, nr);
        } else if ins.code == JUMP_IF_EQUAL {
            let target = jump_target(ins, i, acc);
            assert(jump_target(ins, p.len() + i, acc) == p.len() + target);
            if target < q.len() {
                lemma_run_suffix(p, q, nr, target, acc);
            }
        }
    }
}

/// An allow-list program gives every call the allow list's verdict,
/// whatever the accumulator holds when it starts.
proof fn lemma_allowlist_verdict(allowed: Seq<u32>, nr: u32, acc: u32)
    ensures
        verdict_from(allowlist_program(allowed), nr, 0, acc) == Some(allowlist_verdict(allowed, nr)),
    decreases allowed.len(),
{
    let prog = allowlist_program(allowed);
    if allowed.len() == 0 {
        assert(!allowed.contains(nr));
    } else {
        let rest = allowed.drop_first();
        let block = allow_block(allowed[0]);
        assert(prog == block + allowlist_program(rest));
        assert(prog[0] == block[0]);
        assert(prog[1] == block[1]);
        assert(prog[2] == block[2]);
        assert(verdict_from(prog, nr, 0, acc) == verdict_from(prog, nr, 1, nr));
        assert(verdict_from(prog, nr, 2, nr) == Some(SECCOMP_RET_ALLOW));
        if nr == allowed[0] {
            assert(allowed.contains(nr)) by {
                assert(allowed[0] == nr);
            }
        } else {
            lemma_run_suffix(block, allowlist_program(rest), nr, 0, nr);
            lemma_allowlist_verdict(rest, nr, nr);
            assert(allowed.contains(nr) <==> rest.contains(nr)) by {
                if allowed.contains(nr) {
                    let j = choose|j: int| 0 <= j < allowed.len() && allowed[j] == nr;
                    assert(rest[j - 1] == nr);
                }
                if rest.contains(nr) {
                    let j = choose|j: int| 0 <= j < rest.len() && rest[j] == nr;
                    assert(allowed[j + 1] == nr);
                }
            }
        }
    }
}

/// The filter built from an allow list lets exactly the listed system calls
/// through and kills the process on every other.
pub proof fn law_allowlist_allows_exactly_the_listed(allowed: Seq<u32>, nr: u32)
    ensures
        verdict(allowlist_program(allowed), nr) == Some(allowlist_verdict(allowed, nr)),
{
    lemma_allowlist_verdict(allowed, nr, 0);
}

/// Builds the filter for an allow list of system-call numbers.
pub fn allowlist_filter(allowed: &Vec<u32>) -> (prog: Vec<FilterInstruction>)
    requires
        3 * allowed@.len() + 1 <= usize::MAX,
    ensures
        prog@ == allowlist_program(allowed@),
        forall|nr: u32| #[trigger] verdict(prog@, nr) == Some(allowlist_verdict(allowed@, nr)),
{
    let n = allowed.len();
    let mut prog: Vec<FilterInstruction> = Vec::new();
    let mut i: usize = 0;
    assert(allowed@.subrange(0, n as int) =~= allowed@);
    while i < n
        invariant
            n == allowed@.len(),
            i <= n,
            prog@ + allowlist_program(allowed@.subrange(i as int, n as int)) == allowlist_program(allowed@),
        decreases n - i,
    {
        let nr = allowed[i];
        let ghost rest = allowed@.subrange(i as int, n as int);
        proof {
            assert(rest[0] == nr);
            assert(rest.drop_first() =~= allowed@.subrange(i + 1, n as int));
            assert(allowlist_program(rest) == allow_block(nr) + allowlist_program(allowed@.subrange(i + 1, n as int)));
        }
        let ghost before = prog@;
        prog.push(FilterInstruction { code: LOAD_WORD, jt: 0, jf: 0, k: 0 });
        prog.push(FilterInstruction { code: JUMP_IF_EQUAL, jt: 0, jf: 1, k: nr });
        prog.push(FilterInstruction { code: RETURN, jt: 0, jf: 0, k: SECCOMP_RET_ALLOW });
        proof {
            assert(prog@ =~= before + allow_block(nr));
            assert(prog@ + allowlist_program(allowed@.subrange(i + 1, n as int)) =~= before + (allow_block(nr)
                + allowlist_program(allowed@.subrange(i + 1, n as int))));
        }
        i = i + 1;
    }
    prog.push(FilterInstruction { code: RETURN, jt: 0, jf: 0, k: SECCOMP_RET_KILL });
    proof {
        assert(allowed@.subrange(n as int, n as int) =~= Seq::<u32>::empty());
        assert(prog@ =~= allowlist_program(allowed@));
        assert forall|nr: u32| #[trigger] verdict(prog@, nr) == Some(allowlist_verdict(allowed@, nr)) by {
            law_allowlist_allows_exactly_the_listed(allowed@, nr);
        }
    }
    prog
}

/// The system calls the renderer may make: read, write, mmap and exit.
pub fn renderer_syscalls() -> (r: Vec<u32>)
    ensures
        r@ == seq![0u32, 1, 9, 60],
{
    let mut r: Vec<u32> = Vec::new();
    r.push(0);
    r.push(1);
    r.push(9);
    r.push(60);
    r
}

/// The renderer's filter: allow read, write, mmap and exit; kill on anything else.
pub fn renderer_filter() -> (prog: Vec<FilterInstruction>)
    ensures
        prog@ == allowlist_program(seq![0u32, 1, 9, 60]),
        forall|nr: u32|
            #[trigger] verdict(prog@, nr) == Some(
                if nr == 0 || nr == 1 || nr == 9 || nr == 60 {
                    SECCOMP_RET_ALLOW
                } else {
                    SECCOMP_RET_KILL
                },
            ),
{
    let allowed = renderer_syscalls();
    let prog = allowlist_filter(&allowed);
    proof {
        let s = allowed@;
        assert forall|nr: u32| #[trigger] verdict(prog@, nr) == Some(
            if nr == 0 || nr == 1 || nr == 9 || nr == 60 {
                SECCOMP_RET_ALLOW
            } else {
                SECCOMP_RET_KILL
            },
        ) by {
            assert(verdict(prog@, nr) == Some(allowlist_verdict(s, nr)));
            if nr == 0 {
                assert(s[0] == nr);
            }
            if nr == 1 {
                assert(s[1] == nr);
            }
            if nr == 9 {
                assert(s[2] == nr);
            }
            if nr == 60 {
                assert(s[3] == nr);
            }
        }
    }
    prog
}

} // verus!
