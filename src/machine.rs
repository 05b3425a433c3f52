use vstd::prelude::*;

verus! {

/// The registers that the generated code touches, `rbx` (which the C calling
/// convention asks a called function to preserve, and which the code must leave
/// alone), and the stack of return addresses that `call` pushes, last pushed at
/// the end.
pub struct Machine {
    pub pc: int,
    pub rax: int,
    pub rbx: int,
    pub rdi: int,
    pub r11: int,
    pub stack: Seq<int>,
}

/// A signed 32-bit displacement, least significant byte first.
pub open spec fn rel32(b0: u8, b1: u8, b2: u8, b3: u8) -> int {
    let u = b0 + 256 * b1 + 65536 * b2 + 16777216 * b3;
    if u >= 0x8000_0000 {
        u - 0x1_0000_0000
    } else {
        u
    }
}

/// A signed 8-bit immediate.
pub open spec fn imm8(b: u8) -> int {
    if b >= 0x80 {
        b - 0x100
    } else {
        b as int
    }
}

/// A 64-bit immediate, least significant byte first.
pub open spec fn imm64(code: Seq<u8>, o: int) -> u64 {
    (code[o] as u64) | ((code[o + 1] as u64) << 8u64) | ((code[o + 2] as u64) << 16u64) | ((code[o
        + 3] as u64) << 24u64) | ((code[o + 4] as u64) << 32u64) | ((code[o + 5] as u64) << 40u64)
        | ((code[o + 6] as u64) << 48u64) | ((code[o + 7] as u64) << 56u64)
}

/// One instruction of `code`, loaded at address `base`, executed in state `s`.
/// The instructions are the x86-64 forms that the trampolines use; any other
/// byte, or a `pc` outside the code, stops the machine (`None`).
pub open spec fn step(code: Seq<u8>, base: int, s: Machine) -> Option<Machine> {
    let o = s.pc - base;
    let n = code.len();
    if !(0 <= o < n) {
        None
    } else if code[o] == 0x90 {
        // nop
        Some(Machine { pc: s.pc + 1, ..s })
    } else if o + 2 <= n && code[o] == 0x31 && code[o + 1] == 0xc0 {
        // xor eax, eax
        Some(Machine { pc: s.pc + 2, rax: 0, ..s })
    } else if o + 3 <= n && code[o] == 0x48 && code[o + 1] == 0xff && code[o + 2] == 0xc0 {
        // inc rax
        Some(Machine { pc: s.pc + 3, rax: s.rax + 1, ..s })
    } else if o + 5 <= n && code[o] == 0xe9 {
        // jmp rel32
        Some(
            Machine {
                pc: s.pc + 5 + rel32(code[o + 1], code[o + 2], code[o + 3], code[o + 4]),
                ..s
            },
        )
    } else if o + 5 <= n && code[o] == 0xe8 {
        // call rel32
        Some(
            Machine {
                pc: s.pc + 5 + rel32(code[o + 1], code[o + 2], code[o + 3], code[o + 4]),
                stack: s.stack.push(s.pc + 5),
                ..s
            },
        )
    } else if o + 2 <= n && code[o] == 0x41 && code[o + 1] == 0x5b {
        // pop r11
        if s.stack.len() == 0 {
            None
        } else {
            Some(
                Machine {
                    pc: s.pc + 2,
                    r11: s.stack.last(),
                    stack: s.stack.drop_last(),
                    ..s
                },
            )
        }
    } else if o + 4 <= n && code[o] == 0x49 && code[o + 1] == 0x83 && code[o + 2] == 0xc3 {
        // add r11, imm8
        Some(Machine { pc: s.pc + 4, r11: s.r11 + imm8(code[o + 3]), ..s })
    } else if o + 4 <= n && code[o] == 0x49 && code[o + 1] == 0x8d && code[o + 2] == 0x04 && code[o
        + 3] == 0xc3 {
        // lea rax, [r11 + rax * 8]
        Some(Machine { pc: s.pc + 4, rax: s.r11 + 8 * s.rax, ..s })
    } else if o + 3 <= n && code[o] == 0x48 && code[o + 1] == 0x89 && code[o + 2] == 0xc7 {
        // mov rdi, rax
        Some(Machine { pc: s.pc + 3, rdi: s.rax, ..s })
    } else if o + 10 <= n && code[o] == 0x49 && code[o + 1] == 0xbb {
        // mov r11, imm64
        Some(Machine { pc: s.pc + 10, r11: imm64(code, o + 2) as int, ..s })
    } else if o + 3 <= n && code[o] == 0x41 && code[o + 1] == 0xff && code[o + 2] == 0xe3 {
        // jmp r11
        Some(Machine { pc: s.r11, ..s })
    } else {
        None
    }
}

/// `n` instructions from state `s`; `None` if the machine stops before.
pub open spec fn run(code: Seq<u8>, base: int, s: Machine, n: nat) -> Option<Machine>
    decreases n,
{
    if n == 0 {
        Some(s)
    } else {
        match step(code, base, s) {
            Some(t) => run(code, base, t, (n - 1) as nat),
            None => None,
        }
    }
}

/// Running `a` instructions and then `b` more is running `a + b`.
pub proof fn lemma_run_compose(code: Seq<u8>, base: int, s: Machine, a: nat, b: nat)
    requires
        run(code, base, s, a) is Some,
    ensures
        run(code, base, s, a + b) == run(code, base, run(code, base, s, a).unwrap(), b),
    decreases a,
{
    if a > 0 {
        let t = step(code, base, s).unwrap();
        lemma_run_compose(code, base, t, (a - 1) as nat, b);
        assert((a + b - 1) as nat == ((a - 1) as nat + b) as nat);
    }
}

} // verus!
