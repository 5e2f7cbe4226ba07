use vstd::prelude::*;
use vstd::string::StringExecFns;
use crate::node::{
    Ast, Node, OpKind, Tk, binary_rest, children, expect, parse_assign, parse_binary, parse_block,
    parse_expr, parse_function, parse_functions, parse_primary, parse_program, parse_stmt,
    parse_unary, write_name,
};
use crate::token::{Lexeme, TokenKind, ascii_chars, digits_of, lex, number_program_lexes, number_program_text};
use crate::variable::Env;

verus! {

/// A tree that no correct parse yields, met while generating code.
#[derive(Debug, PartialEq, Eq, Clone, Copy, Structural)]
pub enum CodeGenError {
    /// The left side of an assignment is not a variable.
    AssignToNonVariable,
    /// `&` of something other than a variable or a dereference.
    AddrOfNonAddressable,
    /// A builtin call other than `write`.
    UnknownSyscall,
    /// The label counter is used up.
    TooManyLabels,
}

// ---------------------------------------------------------------------
// The emitted text, as spec functions.

pub open spec fn digit(d: nat) -> char {
    if d == 0 {
        '0'
    } else if d == 1 {
        '1'
    } else if d == 2 {
        '2'
    } else if d == 3 {
        '3'
    } else if d == 4 {
        '4'
    } else if d == 5 {
        '5'
    } else if d == 6 {
        '6'
    } else if d == 7 {
        '7'
    } else if d == 8 {
        '8'
    } else {
        '9'
    }
}

/// `n` in decimal.
pub open spec fn dec(n: nat) -> Seq<char>
    decreases n,
{
    if n < 10 {
        seq![digit(n)]
    } else {
        dec(n / 10).push(digit(n % 10))
    }
}

pub open spec fn push_x0() -> Seq<char> {
    "    str x0, [sp, #-16]!\n"@
}

pub open spec fn pop_x0() -> Seq<char> {
    "    ldr x0, [sp], #16\n"@
}

/// Pops the top `n` values into `x{n-1}` down to `x0`.
pub open spec fn pops(n: nat) -> Seq<char>
    decreases n,
{
    if n == 0 {
        Seq::empty()
    } else {
        "    ldr x"@ + dec((n - 1) as nat) + ", [sp], #16\n"@ + pops((n - 1) as nat)
    }
}

pub open spec fn op_text(op: OpKind) -> Seq<char> {
    match op {
        OpKind::Add => "    add x0, x0, x1\n"@,
        OpKind::Sub => "    sub x0, x0, x1\n"@,
        OpKind::Mul => "    mul x0, x0, x1\n"@,
        OpKind::Div => "    sdiv x0, x0, x1\n"@,
        OpKind::Eq => "    cmp x0, x1\n    cset x0, eq\n"@,
        OpKind::Ne => "    cmp x0, x1\n    cset x0, ne\n"@,
        OpKind::Lt => "    cmp x0, x1\n    cset x0, lt\n"@,
        OpKind::Gt => "    cmp x0, x1\n    cset x0, gt\n"@,
        OpKind::Le => "    cmp x0, x1\n    cset x0, le\n"@,
        OpKind::Ge => "    cmp x0, x1\n    cset x0, ge\n"@,
    }
}

/// Pushes the word at `frame_pointer - off`.
pub open spec fn load_var(off: nat) -> Seq<char> {
    "    mov x2, x29\n    sub x2, x2, #"@ + dec(off) + "\n    ldr x0, [x2]\n"@ + push_x0()
}

/// Pops a value into `frame_pointer - off`.
pub open spec fn store_x1(off: nat) -> Seq<char> {
    "    ldr x1, [sp], #16\n    mov x2, x29\n    sub x2, x2, #"@ + dec(off) + "\n    str x1, [x2]\n"@
}

pub open spec fn string_text(s: Seq<char>, id: nat) -> Seq<char> {
    ".section __DATA,__data\n.L.str."@ + dec(id) + ":\n    .asciz \""@ + s
        + "\"\n.section __TEXT,__text\n    adrp x0, .L.str."@ + dec(id)
        + "@PAGE\n    add x0, x0, .L.str."@ + dec(id) + "@PAGEOFF\n"@ + push_x0()
}

pub open spec fn write_text(id: nat) -> Seq<char> {
    "    mov x1, x0\n    mov x0, #1\n    mov x2, #0\n    mov x3, x1\n.Lstrlen_loop"@ + dec(id)
        + ":\n    ldrb w4, [x3], #1\n    cbz w4, .Lstrlen_end"@ + dec(id)
        + "\n    add x2, x2, #1\n    b .Lstrlen_loop"@ + dec(id) + "\n.Lstrlen_end"@ + dec(id)
        + ":\n    movz x16, #0x0004, lsl #0\n    movk x16, #0x2000, lsl #16\n    svc #0x80\n"@
        + push_x0()
}

pub open spec fn call_text(name: Seq<char>) -> Seq<char> {
    "    stp x29, x30, [sp, #-16]!\n    bl _"@ + name + "\n    ldp x29, x30, [sp], #16\n"@
        + push_x0()
}

pub open spec fn prologue(name: Seq<char>, frame: nat) -> Seq<char> {
    ".globl _"@ + name + "\n_"@ + name + ":\n    stp x29, x30, [sp, #-16]!\n    mov x29, sp\n    sub sp, sp, #"@
        + dec(frame) + "\n    str x0, [x29, #-8]\n"@
}

pub open spec fn epilogue(frame: nat) -> Seq<char> {
    pop_x0() + "    add sp, sp, #"@ + dec(frame) + "\n    ldp x29, x30, [sp], #16\n    ret\n"@
}

pub open spec fn return_text() -> Seq<char> {
    pop_x0() + "    mov sp, x29\n    ldp x29, x30, [sp], #16\n    ret\n"@
}

pub open spec fn end_label(id: Seq<char>) -> Seq<char> {
    ".Lend"@ + id + ":\n"@
}

/// After an `if` condition: branch to the else label when it is zero.
pub open spec fn if_test(id: Seq<char>) -> Seq<char> {
    pop_x0() + "    cmp x0, #0\n    beq .Lelse"@ + id + "\n"@
}

/// After the then branch: jump to the end; the else label.
pub open spec fn if_else(id: Seq<char>) -> Seq<char> {
    "    b .Lend"@ + id + "\n.Lelse"@ + id + ":\n"@
}

pub open spec fn while_head(id: Seq<char>) -> Seq<char> {
    ".Lloop"@ + id + ":\n"@
}

/// After a `while` condition: leave the loop when it is zero.
pub open spec fn while_test(id: Seq<char>) -> Seq<char> {
    pop_x0() + "    cmp x0, #0\n    beq .Lend"@ + id + "\n"@
}

/// After a `while` body: jump back; the end label.
pub open spec fn while_back(id: Seq<char>) -> Seq<char> {
    "    b .Lloop"@ + id + "\n"@ + end_label(id)
}

/// After a `for` init: discard it, jump to the condition; the body label.
pub open spec fn for_head(id: Seq<char>) -> Seq<char> {
    pop_x0() + "    b .Lcond"@ + id + "\n.Lfor"@ + id + ":\n"@
}

/// After a `for` update: discard it; the condition label.
pub open spec fn for_mid(id: Seq<char>) -> Seq<char> {
    pop_x0() + ".Lcond"@ + id + ":\n"@
}

/// After a `for` condition: loop back while it is nonzero; the end label.
pub open spec fn for_tail(id: Seq<char>) -> Seq<char> {
    pop_x0() + "    cmp x0, #0\n    bne .Lfor"@ + id + "\n"@ + end_label(id)
}

/// Copies argument registers `x{i}`, ... into the slots of the parameters
/// from the `i`-th on.
pub open spec fn param_stores(ps: Seq<Ast>, i: nat) -> Seq<char>
    decreases ps.len() - i,
{
    if i >= ps.len() {
        Seq::empty()
    } else {
        let head = match ps[i as int] {
            Ast::Var(o) => "    str x"@ + dec(i) + ", [x29, #-"@ + dec(o as nat) + "]\n"@,
            _ => Seq::empty(),
        };
        head + param_stores(ps, i + 1)
    }
}

// ---------------------------------------------------------------------
// Frame sizing.

pub open spec fn max(a: nat, b: nat) -> nat {
    if a >= b {
        a
    } else {
        b
    }
}

/// The largest slot offset that a tree refers to, counting the whole run
/// of each array.
pub open spec fn max_offset(a: Ast) -> nat
    decreases a, 0nat,
{
    match a {
        Ast::Sequence(x, y) => max(max_offset(*x), max_offset(*y)),
        Ast::Function(_, _, body) => max_offset(*body),
        Ast::Num(_) => 0,
        Ast::Str(_) => 0,
        Ast::Var(o) => o as nat,
        Ast::Call(_, args) => list_max(args, 0),
        Ast::Syscall(_, args) => list_max(args, 0),
        Ast::Assign(x, y) => max(max_offset(*x), max_offset(*y)),
        Ast::Binary(_, x, y) => max(max_offset(*x), max_offset(*y)),
        Ast::Return(x) => max_offset(*x),
        Ast::Deref(x) => max_offset(*x),
        Ast::Addr(x) => max_offset(*x),
        Ast::If(c, t, e) => max(
            max(max_offset(*c), max_offset(*t)),
            match e {
                Some(x) => max_offset(*x),
                None => 0,
            },
        ),
        Ast::While(c, b) => max(max_offset(*c), max_offset(*b)),
        Ast::For(i, c, u, b) => max(
            max(max(max_offset(*i), max_offset(*c)), max_offset(*u)),
            max_offset(*b),
        ),
        Ast::ArrayAssign(o, els) => max(
            if els.len() == 0 {
                o as nat
            } else {
                (o + (els.len() - 1) * 8) as nat
            },
            list_max(els, 0),
        ),
    }
}

/// The largest `max_offset` of the trees from the `i`-th on.
pub open spec fn list_max(s: Seq<Ast>, i: nat) -> nat
    decreases s, s.len() - i,
{
    if i >= s.len() {
        0
    } else {
        max(max_offset(s[i as int]), list_max(s, i + 1))
    }
}

/// The largest parameter slot from the `i`-th parameter on.
pub open spec fn params_max(ps: Seq<Ast>, i: nat) -> nat
    decreases ps.len() - i,
{
    if i >= ps.len() {
        0
    } else {
        max(
            match ps[i as int] {
                Ast::Var(o) => o as nat,
                _ => 0,
            },
            params_max(ps, i + 1),
        )
    }
}

/// The frame for a largest offset `m`: `m` rounded up to 16, and at least 48.
pub open spec fn frame_size(m: nat) -> nat {
    if m > 48 {
        ((m + 15) / 16) * 16
    } else {
        48
    }
}

// ---------------------------------------------------------------------
// Code for a tree.

/// The text for a tree and the label counter after it, given the counter
/// `l` before; each `if`, `while`, `for`, string and `write` draws one label.
pub type Gen = Result<(Seq<char>, u64), CodeGenError>;

pub open spec fn gen(a: Ast, l: u64) -> Gen
    decreases a, 0nat,
{
    match a {
        Ast::Num(v) => Ok(("    mov x0, #"@ + dec(v as nat) + "\n"@ + push_x0(), l)),
        Ast::Str(s) => if l == u64::MAX {
            Err(CodeGenError::TooManyLabels)
        } else {
            Ok((string_text(s, l as nat), (l + 1) as u64))
        },
        Ast::Var(o) => Ok((load_var(o as nat), l)),
        Ast::Sequence(x, y) => match gen(*x, l) {
            Ok((tx, l1)) => match gen(*y, l1) {
                Ok((ty, l2)) => Ok((tx + pop_x0() + ty, l2)),
                Err(e) => Err(e),
            },
            Err(e) => Err(e),
        },
        Ast::Function(name, ps, body) => match gen(*body, l) {
            Ok((tb, l1)) => {
                let frame = frame_size(max(params_max(ps, 0), max_offset(*body)));
                Ok((prologue(name, frame) + param_stores(ps, 0) + tb + epilogue(frame), l1))
            },
            Err(e) => Err(e),
        },
        Ast::Call(name, args) => match gen_list(args, 0, l) {
            Ok((ta, l1)) => Ok((ta + pops(args.len()) + call_text(name), l1)),
            Err(e) => Err(e),
        },
        Ast::Syscall(name, args) => match gen_list(args, 0, l) {
            Ok((ta, l1)) => if name != write_name() {
                Err(CodeGenError::UnknownSyscall)
            } else if l1 == u64::MAX {
                Err(CodeGenError::TooManyLabels)
            } else {
                Ok((ta + pops(args.len()) + write_text(l1 as nat), (l1 + 1) as u64))
            },
            Err(e) => Err(e),
        },
        Ast::Assign(x, y) => match gen(*y, l) {
            Ok((ty, l1)) => match *x {
                Ast::Var(o) => Ok((ty + store_x1(o as nat) + "    str x1, [sp, #-16]!\n"@, l1)),
                _ => Err(CodeGenError::AssignToNonVariable),
            },
            Err(e) => Err(e),
        },
        Ast::Binary(op, x, y) => match gen(*x, l) {
            Ok((tx, l1)) => match gen(*y, l1) {
                Ok((ty, l2)) => Ok(
                    (
                        tx + ty + "    ldr x1, [sp], #16\n    ldr x0, [sp], #16\n"@ + op_text(op)
                            + push_x0(),
                        l2,
                    ),
                ),
                Err(e) => Err(e),
            },
            Err(e) => Err(e),
        },
        Ast::Return(x) => match gen(*x, l) {
            Ok((tx, l1)) => Ok((tx + return_text(), l1)),
            Err(e) => Err(e),
        },
        Ast::If(c, t, e) => match gen(*c, l) {
            Ok((tc, l1)) => if l1 == u64::MAX {
                Err(CodeGenError::TooManyLabels)
            } else {
                let id = dec(l1 as nat);
                match gen(*t, (l1 + 1) as u64) {
                    Ok((tt, l2)) => {
                        let tail = match e {
                            Some(x) => gen(*x, l2),
                            None => Ok((Seq::empty(), l2)),
                        };
                        match tail {
                            Ok((te, l3)) => Ok(
                                (tc + if_test(id) + tt + if_else(id) + te + end_label(id), l3),
                            ),
                            Err(err) => Err(err),
                        }
                    },
                    Err(err) => Err(err),
                }
            },
            Err(err) => Err(err),
        },
        Ast::While(c, b) => if l == u64::MAX {
            Err(CodeGenError::TooManyLabels)
        } else {
            let id = dec(l as nat);
            match gen(*c, (l + 1) as u64) {
                Ok((tc, l1)) => match gen(*b, l1) {
                    Ok((tb, l2)) => Ok(
                        (while_head(id) + tc + while_test(id) + tb + while_back(id), l2),
                    ),
                    Err(e) => Err(e),
                },
                Err(e) => Err(e),
            }
        },
        Ast::For(i, c, u, b) => if l == u64::MAX {
            Err(CodeGenError::TooManyLabels)
        } else {
            let id = dec(l as nat);
            match gen(*i, (l + 1) as u64) {
                Ok((ti, l1)) => match gen(*b, l1) {
                    Ok((tb, l2)) => match gen(*u, l2) {
                        Ok((tu, l3)) => match gen(*c, l3) {
                            Ok((tc, l4)) => Ok(
                                (ti + for_head(id) + tb + tu + for_mid(id) + tc + for_tail(id), l4),
                            ),
                            Err(e) => Err(e),
                        },
                        Err(e) => Err(e),
                    },
                    Err(e) => Err(e),
                },
                Err(e) => Err(e),
            }
        },
        Ast::Deref(x) => match gen(*x, l) {
            Ok((tx, l1)) => Ok((tx + pop_x0() + "    ldr x0, [x0]\n"@ + push_x0(), l1)),
            Err(e) => Err(e),
        },
        Ast::Addr(x) => match *x {
            Ast::Var(o) => Ok(
                ("    mov x0, x29\n    sub x0, x0, #"@ + dec(o as nat) + "\n"@ + push_x0(), l),
            ),
            Ast::Deref(y) => gen(*y, l),
            _ => Err(CodeGenError::AddrOfNonAddressable),
        },
        Ast::ArrayAssign(o, els) => match gen_elems(o as nat, els, 0, l) {
            Ok((te, l1)) => Ok((te + "    mov x0, #0\n"@ + push_x0(), l1)),
            Err(e) => Err(e),
        },
    }
}

/// The code for the trees from the `i`-th on, one after another.
pub open spec fn gen_list(s: Seq<Ast>, i: nat, l: u64) -> Gen
    decreases s, s.len() - i,
{
    if i >= s.len() {
        Ok((Seq::empty(), l))
    } else {
        match gen(s[i as int], l) {
            Ok((t, l1)) => match gen_list(s, i + 1, l1) {
                Ok((tr, l2)) => Ok((t + tr, l2)),
                Err(e) => Err(e),
            },
            Err(e) => Err(e),
        }
    }
}

/// Each array element from the `i`-th on, stored at `o + i * 8`.
pub open spec fn gen_elems(o: nat, s: Seq<Ast>, i: nat, l: u64) -> Gen
    decreases s, s.len() - i,
{
    if i >= s.len() {
        Ok((Seq::empty(), l))
    } else {
        match gen(s[i as int], l) {
            Ok((t, l1)) => match gen_elems(o, s, i + 1, l1) {
                Ok((tr, l2)) => Ok((t + store_x1(o + i * 8) + tr, l2)),
                Err(e) => Err(e),
            },
            Err(e) => Err(e),
        }
    }
}

/// The whole output for a tree: a text-section header, then its code.
pub open spec fn assembly(a: Ast) -> Result<Seq<char>, CodeGenError> {
    match gen(a, 0) {
        Ok((t, _)) => Ok(".section __TEXT,__text\n"@ + t),
        Err(e) => Err(e),
    }
}


/// How many labels the code for a tree draws: one for each `if`, `while`,
/// `for`, string literal and `write` call in it.
pub open spec fn label_count(a: Ast) -> nat
    decreases a, 0nat,
{
    match a {
        Ast::Sequence(x, y) => label_count(*x) + label_count(*y),
        Ast::Function(_, _, body) => label_count(*body),
        Ast::Num(_) => 0,
        Ast::Str(_) => 1,
        Ast::Var(_) => 0,
        Ast::Call(_, args) => list_labels(args, 0),
        Ast::Syscall(_, args) => list_labels(args, 0) + 1,
        Ast::Assign(x, y) => label_count(*x) + label_count(*y),
        Ast::Binary(_, x, y) => label_count(*x) + label_count(*y),
        Ast::Return(x) => label_count(*x),
        Ast::If(c, t, e) => 1 + label_count(*c) + label_count(*t) + match e {
            Some(x) => label_count(*x),
            None => 0,
        },
        Ast::While(c, b) => 1 + label_count(*c) + label_count(*b),
        Ast::For(i, c, u, b) => 1 + label_count(*i) + label_count(*c) + label_count(*u)
            + label_count(*b),
        Ast::Deref(x) => label_count(*x),
        Ast::Addr(x) => match *x {
            Ast::Deref(y) => label_count(*y),
            _ => 0,
        },
        Ast::ArrayAssign(_, els) => list_labels(els, 0),
    }
}

pub open spec fn list_labels(s: Seq<Ast>, i: nat) -> nat
    decreases s, s.len() - i,
{
    if i >= s.len() {
        0
    } else {
        label_count(s[i as int]) + list_labels(s, i + 1)
    }
}

/// Labels never collide: the code for a tree draws its label numbers from
/// the counter one at a time, so the counter after it has moved on by
/// exactly the number of labelled constructs in it, and every construct,
/// sibling or nested, gets a number of its own.
#[verifier::spinoff_prover]
pub proof fn labels_are_drawn_once_each(a: Ast, l: u64)
    ensures
        gen(a, l) matches Ok((_, l2)) ==> l2 == l + label_count(a),
    decreases a, 0nat,
{
    match a {
        Ast::Sequence(x, y) | Ast::Binary(_, x, y) => {
            labels_are_drawn_once_each(*x, l);
            if let Ok((_, l1)) = gen(*x, l) {
                labels_are_drawn_once_each(*y, l1);
            }
        },
        Ast::Assign(x, y) => {
            labels_are_drawn_once_each(*y, l);
            assert(*x is Var ==> label_count(*x) == 0);
        },
        Ast::Function(_, _, body) => labels_are_drawn_once_each(*body, l),
        Ast::Call(_, args) => list_labels_are_drawn_once_each(args, 0, l),
        Ast::Syscall(_, args) => list_labels_are_drawn_once_each(args, 0, l),
        Ast::Return(x) => labels_are_drawn_once_each(*x, l),
        Ast::Deref(x) => labels_are_drawn_once_each(*x, l),
        Ast::Addr(x) => match *x {
            Ast::Deref(y) => labels_are_drawn_once_each(*y, l),
            _ => {},
        },
        Ast::If(c, t, e) => {
            labels_are_drawn_once_each(*c, l);
            if let Ok((_, l1)) = gen(*c, l) {
                if l1 < u64::MAX {
                    labels_are_drawn_once_each(*t, (l1 + 1) as u64);
                    if let Ok((_, l2)) = gen(*t, (l1 + 1) as u64) {
                        if let Some(x) = e {
                            labels_are_drawn_once_each(*x, l2);
                        }
                    }
                }
            }
        },
        Ast::While(c, b) => {
            if l < u64::MAX {
                labels_are_drawn_once_each(*c, (l + 1) as u64);
                if let Ok((_, l1)) = gen(*c, (l + 1) as u64) {
                    labels_are_drawn_once_each(*b, l1);
                }
            }
        },
        Ast::For(i, c, u, b) => {
            if l < u64::MAX {
                labels_are_drawn_once_each(*i, (l + 1) as u64);
                if let Ok((_, l1)) = gen(*i, (l + 1) as u64) {
                    labels_are_drawn_once_each(*b, l1);
                    if let Ok((_, l2)) = gen(*b, l1) {
                        labels_are_drawn_once_each(*u, l2);
                        if let Ok((_, l3)) = gen(*u, l2) {
                            labels_are_drawn_once_each(*c, l3);
                        }
                    }
                }
            }
        },
        Ast::ArrayAssign(o, els) => elems_labels_are_drawn_once_each(o as nat, els, 0, l),
        _ => {},
    }
}

pub proof fn list_labels_are_drawn_once_each(s: Seq<Ast>, i: nat, l: u64)
    ensures
        gen_list(s, i, l) matches Ok((_, l2)) ==> l2 == l + list_labels(s, i),
    decreases s, s.len() - i,
{
    if i < s.len() {
        labels_are_drawn_once_each(s[i as int], l);
        if let Ok((_, l1)) = gen(s[i as int], l) {
            list_labels_are_drawn_once_each(s, i + 1, l1);
        }
    }
}

pub proof fn elems_labels_are_drawn_once_each(o: nat, s: Seq<Ast>, i: nat, l: u64)
    ensures
        gen_elems(o, s, i, l) matches Ok((_, l2)) ==> l2 == l + list_labels(s, i),
    decreases s, s.len() - i,
{
    if i < s.len() {
        labels_are_drawn_once_each(s[i as int], l);
        if let Ok((_, l1)) = gen(s[i as int], l) {
            elems_labels_are_drawn_once_each(o, s, i + 1, l1);
        }
    }
}

fn append_digit(out: &mut String, d: u128)
    requires
        d < 10,
    ensures
        final(out)@ == old(out)@.push(digit(d as nat)),
{
    let s = if d == 0 {
        proof { reveal_strlit("0"); }
        "0"
    } else if d == 1 {
        proof { reveal_strlit("1"); }
        "1"
    } else if d == 2 {
        proof { reveal_strlit("2"); }
        "2"
    } else if d == 3 {
        proof { reveal_strlit("3"); }
        "3"
    } else if d == 4 {
        proof { reveal_strlit("4"); }
        "4"
    } else if d == 5 {
        proof { reveal_strlit("5"); }
        "5"
    } else if d == 6 {
        proof { reveal_strlit("6"); }
        "6"
    } else if d == 7 {
        proof { reveal_strlit("7"); }
        "7"
    } else if d == 8 {
        proof { reveal_strlit("8"); }
        "8"
    } else {
        proof { reveal_strlit("9"); }
        "9"
    };
    out.append(s);
    assert(out@ =~= old(out)@.push(digit(d as nat)));
}

/// Appends `n` in decimal.
pub fn append_num(out: &mut String, n: u128)
    ensures
        final(out)@ =~= old(out)@ + dec(n as nat),
    decreases n,
{
    if n >= 10 {
        append_num(out, n / 10);
    }
    append_digit(out, n % 10);
}

/// `n` in decimal.
pub fn decimal(n: u128) -> (r: String)
    ensures
        r@ == dec(n as nat),
{
    let mut s = String::new();
    append_num(&mut s, n);
    s
}

pub open spec fn gen_glue(pre: Seq<char>, r: Gen) -> Gen {
    match r {
        Ok((t, l)) => Ok((pre + t, l)),
        Err(e) => Err(e),
    }
}

// ---------------------------------------------------------------------
// The generator.

/// Emits assembly for a tree: the text so far and the label counter.
pub struct CodeGen {
    pub out: String,
    pub label: u64,
}

/// The largest offset a tree can refer to stays below this bound.
pub open spec fn offset_bound() -> nat {
    0x10_0000_0000_0000_0000
}

impl CodeGen {
    pub fn new() -> (r: CodeGen)
        ensures
            r.out@ == Seq::<char>::empty(),
            r.label == 0,
    {
        CodeGen { out: String::new(), label: 0 }
    }

    fn emit(&mut self, s: &str)
        ensures
            final(self).out@ == old(self).out@ + s@,
            final(self).label == old(self).label,
    {
        self.out.append(s);
    }

    /// Emits `n` in decimal.
    fn emit_num(&mut self, n: u128)
        ensures
            final(self).out@ =~= old(self).out@ + dec(n as nat),
            final(self).label == old(self).label,
    {
        append_num(&mut self.out, n);
    }

    /// Draws the next label number.
    fn fresh_label(&mut self) -> (r: Result<u64, CodeGenError>)
        ensures
            final(self).out@ == old(self).out@,
            old(self).label == u64::MAX ==> r == Err::<u64, CodeGenError>(
                CodeGenError::TooManyLabels,
            ),
            old(self).label < u64::MAX ==> r == Ok::<u64, CodeGenError>(old(self).label)
                && final(self).label == old(self).label + 1,
    {
        if self.label == u64::MAX {
            return Err(CodeGenError::TooManyLabels);
        }
        let id = self.label;
        self.label = self.label + 1;
        Ok(id)
    }

    /// Pushes an immediate.
    fn push_imm(&mut self, n: u64)
        ensures
            final(self).out@ =~= old(self).out@ + "    mov x0, #"@ + dec(n as nat) + "\n"@
                + push_x0(),
            final(self).label == old(self).label,
    {
        self.emit("    mov x0, #");
        self.emit_num(n as u128);
        self.emit("\n");
        self.emit("    str x0, [sp, #-16]!\n");
    }

    fn emit_var(&mut self, off: u64)
        ensures
            final(self).out@ =~= old(self).out@ + load_var(off as nat),
            final(self).label == old(self).label,
    {
        self.emit("    mov x2, x29\n    sub x2, x2, #");
        self.emit_num(off as u128);
        self.emit("\n    ldr x0, [x2]\n");
        self.emit("    str x0, [sp, #-16]!\n");
    }

    fn emit_store(&mut self, off: u128)
        ensures
            final(self).out@ =~= old(self).out@ + store_x1(off as nat),
            final(self).label == old(self).label,
    {
        self.emit("    ldr x1, [sp], #16\n    mov x2, x29\n    sub x2, x2, #");
        self.emit_num(off);
        self.emit("\n    str x1, [x2]\n");
    }

    fn emit_pops(&mut self, n: usize)
        ensures
            final(self).out@ =~= old(self).out@ + pops(n as nat),
            final(self).label == old(self).label,
    {
        let mut i: usize = n;
        while i > 0
            invariant
                i <= n,
                self.label == old(self).label,
                self.out@ + pops(i as nat) =~= old(self).out@ + pops(n as nat),
            decreases i,
        {
            let ghost before = self.out@;
            self.emit("    ldr x");
            self.emit_num((i - 1) as u128);
            self.emit(", [sp], #16\n");
            proof {
                assert(self.out@ =~= before + ("    ldr x"@ + dec((i - 1) as nat) + ", [sp], #16\n"@));
            }
            i = i - 1;
        }
    }

    fn gen_prologue(&mut self, name: &String, frame: u128)
        ensures
            final(self).out@ =~= old(self).out@ + prologue(name@, frame as nat),
            final(self).label == old(self).label,
    {
        self.emit(".globl _");
        self.emit(name.as_str());
        self.emit("\n_");
        self.emit(name.as_str());
        self.emit(":\n    stp x29, x30, [sp, #-16]!\n    mov x29, sp\n    sub sp, sp, #");
        self.emit_num(frame);
        self.emit("\n    str x0, [x29, #-8]\n");
    }

    fn gen_epilogue(&mut self, frame: u128)
        ensures
            final(self).out@ =~= old(self).out@ + epilogue(frame as nat),
            final(self).label == old(self).label,
    {
        self.emit("    ldr x0, [sp], #16\n");
        self.emit("    add sp, sp, #");
        self.emit_num(frame);
        self.emit("\n    ldp x29, x30, [sp], #16\n    ret\n");
    }

    fn emit_string(&mut self, s: &String) -> (r: Result<(), CodeGenError>)
        ensures
            match gen(Ast::Str(s@), old(self).label) {
                Ok((t, l)) => r is Ok && final(self).out@ =~= old(self).out@ + t
                    && final(self).label == l,
                Err(e) => r == Err::<(), CodeGenError>(e),
            },
    {
        let id = match self.fresh_label() {
            Ok(id) => id as u128,
            Err(e) => return Err(e),
        };
        self.emit(".section __DATA,__data\n.L.str.");
        self.emit_num(id);
        self.emit(":\n    .asciz \"");
        self.emit(s.as_str());
        self.emit("\"\n.section __TEXT,__text\n    adrp x0, .L.str.");
        self.emit_num(id);
        self.emit("@PAGE\n    add x0, x0, .L.str.");
        self.emit_num(id);
        self.emit("@PAGEOFF\n");
        self.emit("    str x0, [sp, #-16]!\n");
        Ok(())
    }

    fn emit_write(&mut self, id: u64)
        ensures
            final(self).out@ =~= old(self).out@ + write_text(id as nat),
            final(self).label == old(self).label,
    {
        self.emit("    mov x1, x0\n    mov x0, #1\n    mov x2, #0\n    mov x3, x1\n.Lstrlen_loop");
        self.emit_num(id as u128);
        self.emit(":\n    ldrb w4, [x3], #1\n    cbz w4, .Lstrlen_end");
        self.emit_num(id as u128);
        self.emit("\n    add x2, x2, #1\n    b .Lstrlen_loop");
        self.emit_num(id as u128);
        self.emit("\n.Lstrlen_end");
        self.emit_num(id as u128);
        self.emit(":\n    movz x16, #0x0004, lsl #0\n    movk x16, #0x2000, lsl #16\n    svc #0x80\n");
        self.emit("    str x0, [sp, #-16]!\n");
    }

    fn emit_call_tail(&mut self, name: &String)
        ensures
            final(self).out@ =~= old(self).out@ + call_text(name@),
            final(self).label == old(self).label,
    {
        self.emit("    stp x29, x30, [sp, #-16]!\n    bl _");
        self.emit(name.as_str());
        self.emit("\n    ldp x29, x30, [sp], #16\n");
        self.emit("    str x0, [sp, #-16]!\n");
    }

    fn emit_op(&mut self, op: OpKind)
        ensures
            final(self).out@ =~= old(self).out@ + op_text(op),
            final(self).label == old(self).label,
    {
        match op {
            OpKind::Add => self.emit("    add x0, x0, x1\n"),
            OpKind::Sub => self.emit("    sub x0, x0, x1\n"),
            OpKind::Mul => self.emit("    mul x0, x0, x1\n"),
            OpKind::Div => self.emit("    sdiv x0, x0, x1\n"),
            OpKind::Eq => self.emit("    cmp x0, x1\n    cset x0, eq\n"),
            OpKind::Ne => self.emit("    cmp x0, x1\n    cset x0, ne\n"),
            OpKind::Lt => self.emit("    cmp x0, x1\n    cset x0, lt\n"),
            OpKind::Gt => self.emit("    cmp x0, x1\n    cset x0, gt\n"),
            OpKind::Le => self.emit("    cmp x0, x1\n    cset x0, le\n"),
            OpKind::Ge => self.emit("    cmp x0, x1\n    cset x0, ge\n"),
        }
    }

    fn emit_if_test(&mut self, id: u128)
        ensures
            final(self).out@ =~= old(self).out@ + if_test(dec(id as nat)),
            final(self).label == old(self).label,
    {
        self.emit("    ldr x0, [sp], #16\n");
        self.emit("    cmp x0, #0\n    beq .Lelse");
        self.emit_num(id);
        self.emit("\n");
    }

    fn emit_if_else(&mut self, id: u128)
        ensures
            final(self).out@ =~= old(self).out@ + if_else(dec(id as nat)),
            final(self).label == old(self).label,
    {
        self.emit("    b .Lend");
        self.emit_num(id);
        self.emit("\n.Lelse");
        self.emit_num(id);
        self.emit(":\n");
    }

    fn emit_end_label(&mut self, id: u128)
        ensures
            final(self).out@ =~= old(self).out@ + end_label(dec(id as nat)),
            final(self).label == old(self).label,
    {
        self.emit(".Lend");
        self.emit_num(id);
        self.emit(":\n");
    }

    fn emit_while_head(&mut self, id: u128)
        ensures
            final(self).out@ =~= old(self).out@ + while_head(dec(id as nat)),
            final(self).label == old(self).label,
    {
        self.emit(".Lloop");
        self.emit_num(id);
        self.emit(":\n");
    }

    fn emit_while_test(&mut self, id: u128)
        ensures
            final(self).out@ =~= old(self).out@ + while_test(dec(id as nat)),
            final(self).label == old(self).label,
    {
        self.emit("    ldr x0, [sp], #16\n");
        self.emit("    cmp x0, #0\n    beq .Lend");
        self.emit_num(id);
        self.emit("\n");
    }

    fn emit_while_back(&mut self, id: u128)
        ensures
            final(self).out@ =~= old(self).out@ + while_back(dec(id as nat)),
            final(self).label == old(self).label,
    {
        self.emit("    b .Lloop");
        self.emit_num(id);
        self.emit("\n");
        self.emit_end_label(id);
    }

    fn emit_for_head(&mut self, id: u128)
        ensures
            final(self).out@ =~= old(self).out@ + for_head(dec(id as nat)),
            final(self).label == old(self).label,
    {
        self.emit("    ldr x0, [sp], #16\n");
        self.emit("    b .Lcond");
        self.emit_num(id);
        self.emit("\n.Lfor");
        self.emit_num(id);
        self.emit(":\n");
    }

    fn emit_for_mid(&mut self, id: u128)
        ensures
            final(self).out@ =~= old(self).out@ + for_mid(dec(id as nat)),
            final(self).label == old(self).label,
    {
        self.emit("    ldr x0, [sp], #16\n");
        self.emit(".Lcond");
        self.emit_num(id);
        self.emit(":\n");
    }

    fn emit_for_tail(&mut self, id: u128)
        ensures
            final(self).out@ =~= old(self).out@ + for_tail(dec(id as nat)),
            final(self).label == old(self).label,
    {
        self.emit("    ldr x0, [sp], #16\n");
        self.emit("    cmp x0, #0\n    bne .Lfor");
        self.emit_num(id);
        self.emit("\n");
        self.emit_end_label(id);
    }

    /// Copies the argument registers into the parameters' slots.
    fn emit_param_stores(&mut self, args: &Vec<Node>)
        ensures
            final(self).out@ =~= old(self).out@ + param_stores(children(*args), 0),
            final(self).label == old(self).label,
    {
        let ghost cs = children(*args);
        let mut i: usize = 0;
        while i < args.len()
            invariant
                i <= args@.len(),
                cs == children(*args),
                self.label == old(self).label,
                old(self).out@ + param_stores(cs, 0) =~= self.out@ + param_stores(cs, i as nat),
            decreases args@.len() - i,
        {
            let ghost before = self.out@;
            match &args[i] {
                Node::Var { offset } => {
                    self.emit("    str x");
                    self.emit_num(i as u128);
                    self.emit(", [x29, #-");
                    self.emit_num(*offset as u128);
                    self.emit("]\n");
                },
                _ => {},
            }
            proof {
                assert(param_stores(cs, i as nat) =~= (self.out@.subrange(before.len() as int, self.out@.len() as int)) + param_stores(cs, (i + 1) as nat));
            }
            i = i + 1;
        }
    }
}


fn max_u128(a: u128, b: u128) -> (r: u128)
    ensures
        r == max(a as nat, b as nat),
{
    if a >= b {
        a
    } else {
        b
    }
}

/// The largest slot offset that a tree refers to, counting the whole run
/// of each array; independent of the parser's own bookkeeping.
pub fn compute_max_offset(node: &Node) -> (r: u128)
    ensures
        r == max_offset(node.ast()),
        r < offset_bound(),
    decreases node,
{
    match node {
        Node::Sequence { first, second } => max_u128(
            compute_max_offset(first),
            compute_max_offset(second),
        ),
        Node::Function { body, .. } => compute_max_offset(body),
        Node::Num { .. } => 0,
        Node::StringLiteral { .. } => 0,
        Node::Var { offset } => *offset as u128,
        Node::Call { args, .. } => max_of_list(args),
        Node::Syscall { args, .. } => max_of_list(args),
        Node::Assign { lhs, rhs } => max_u128(compute_max_offset(lhs), compute_max_offset(rhs)),
        Node::BinaryOp { lhs, rhs, .. } => max_u128(
            compute_max_offset(lhs),
            compute_max_offset(rhs),
        ),
        Node::Return { expr } => compute_max_offset(expr),
        Node::Deref { expr } => compute_max_offset(expr),
        Node::Addr { expr } => compute_max_offset(expr),
        Node::If { cond, then_stmt, else_stmt } => {
            let m = max_u128(compute_max_offset(cond), compute_max_offset(then_stmt));
            match else_stmt {
                Some(e) => max_u128(m, compute_max_offset(e)),
                None => max_u128(m, 0),
            }
        },
        Node::While { cond, body } => max_u128(compute_max_offset(cond), compute_max_offset(body)),
        Node::For { init, cond, update, body } => {
            let m = max_u128(compute_max_offset(init), compute_max_offset(cond));
            let m = max_u128(m, compute_max_offset(update));
            max_u128(m, compute_max_offset(body))
        },
        Node::ArrayAssign { offset, elements } => {
            let n = elements.len();
            let end: u128 = if n == 0 {
                *offset as u128
            } else {
                *offset as u128 + (n as u128 - 1) * 8
            };
            proof {
                assert(children(*elements).len() == n);
            }
            max_u128(end, max_of_list(elements))
        },
    }
}

/// The largest `compute_max_offset` over a list of trees.
fn max_of_list(v: &Vec<Node>) -> (r: u128)
    ensures
        r == list_max(children(*v), 0),
        r < offset_bound(),
    decreases v,
{
    let ghost cs = children(*v);
    let mut i: usize = v.len();
    let mut acc: u128 = 0;
    while i > 0
        invariant
            i <= v@.len(),
            cs == children(*v),
            acc == list_max(cs, i as nat),
            acc < offset_bound(),
        decreases i,
    {
        i = i - 1;
        let m = compute_max_offset(&v[i]);
        acc = max_u128(m, acc);
    }
    acc
}

/// The frame for a largest offset `m`: rounded up to 16 bytes, at least 48.
fn frame_for(m: u128) -> (r: u128)
    requires
        m < offset_bound(),
    ensures
        r == frame_size(m as nat),
{
    if m > 48 {
        ((m + 15) / 16) * 16
    } else {
        48
    }
}

/// The largest slot among the parameters.
fn params_max_exec(args: &Vec<Node>) -> (r: u128)
    ensures
        r == params_max(children(*args), 0),
        r < offset_bound(),
{
    let ghost cs = children(*args);
    let mut i: usize = args.len();
    let mut acc: u128 = 0;
    while i > 0
        invariant
            i <= args@.len(),
            cs == children(*args),
            acc == params_max(cs, i as nat),
            acc <= u64::MAX,
        decreases i,
    {
        i = i - 1;
        let m: u128 = match &args[i] {
            Node::Var { offset } => *offset as u128,
            _ => 0,
        };
        acc = max_u128(m, acc);
    }
    acc
}


pub proof fn lemma_gen_glue(pre: Seq<char>, t: Seq<char>, r: Gen)
    ensures
        gen_glue(pre, match r {
            Ok((tr, l2)) => Ok((t + tr, l2)),
            Err(e) => Err(e),
        }) == gen_glue(pre + t, r),
{
    if let Ok((tr, l2)) = r {
        assert(pre + (t + tr) =~= (pre + t) + tr);
    }
}

impl CodeGen {
    /// Emits the code of each tree of `args` in turn.
    fn gen_args(&mut self, args: &Vec<Node>) -> (r: Result<(), CodeGenError>)
        ensures
            match gen_list(children(*args), 0, old(self).label) {
                Ok((t, l)) => r is Ok && final(self).out@ =~= old(self).out@ + t
                    && final(self).label == l,
                Err(e) => r == Err::<(), CodeGenError>(e),
            },
        decreases args, 0nat,
    {
        let ghost cs = children(*args);
        let ghost acc: Seq<char> = Seq::empty();
        assert(old(self).out@ + acc =~= old(self).out@);
        let mut i: usize = 0;
        while i < args.len()
            invariant
                i <= args@.len(),
                cs == children(*args),
                self.out@ =~= old(self).out@ + acc,
                gen_list(cs, 0, old(self).label) == gen_glue(acc, gen_list(cs, i as nat, self.label)),
            decreases args@.len() - i,
        {
            let ghost before = self.out@;
            let ghost l0 = self.label;
            assert(cs[i as int] == args@[i as int].ast());
            match self.gen_node(&args[i]) {
                Ok(()) => {},
                Err(e) => return Err(e),
            }
            proof {
                let t = self.out@.subrange(before.len() as int, self.out@.len() as int);
                assert(self.out@ =~= before + t);
                assert(gen(cs[i as int], l0) is Ok);
                assert(t =~= gen(cs[i as int], l0)->Ok_0.0);
                lemma_gen_glue(acc, t, gen_list(cs, (i + 1) as nat, self.label));
                acc = acc + t;
            }
            i = i + 1;
        }
        assert(acc + Seq::<char>::empty() =~= acc);
        Ok(())
    }

    /// Emits each array element and stores it at `offset + i * 8`.
    fn gen_elems(&mut self, offset: u64, elements: &Vec<Node>) -> (r: Result<(), CodeGenError>)
        ensures
            match gen_elems(offset as nat, children(*elements), 0, old(self).label) {
                Ok((t, l)) => r is Ok && final(self).out@ =~= old(self).out@ + t
                    && final(self).label == l,
                Err(e) => r == Err::<(), CodeGenError>(e),
            },
        decreases elements, 0nat,
    {
        let ghost cs = children(*elements);
        let ghost acc: Seq<char> = Seq::empty();
        assert(old(self).out@ + acc =~= old(self).out@);
        let mut i: usize = 0;
        while i < elements.len()
            invariant
                i <= elements@.len(),
                cs == children(*elements),
                self.out@ =~= old(self).out@ + acc,
                gen_elems(offset as nat, cs, 0, old(self).label) == gen_glue(
                    acc,
                    gen_elems(offset as nat, cs, i as nat, self.label),
                ),
            decreases elements@.len() - i,
        {
            let ghost before = self.out@;
            let ghost l0 = self.label;
            assert(cs[i as int] == elements@[i as int].ast());
            match self.gen_node(&elements[i]) {
                Ok(()) => {},
                Err(e) => return Err(e),
            }
            let ghost mid = self.out@;
            self.emit_store(offset as u128 + (i as u128) * 8);
            proof {
                let t1 = mid.subrange(before.len() as int, mid.len() as int);
                assert(mid =~= before + t1);
                assert(gen(cs[i as int], l0) is Ok);
                assert(t1 =~= gen(cs[i as int], l0)->Ok_0.0);
                let t = self.out@.subrange(before.len() as int, self.out@.len() as int);
                assert(t =~= t1 + store_x1(offset as nat + i as nat * 8));
                assert(self.out@ =~= before + t);
                lemma_gen_glue(acc, t, gen_elems(offset as nat, cs, (i + 1) as nat, self.label));
                acc = acc + t;
            }
            i = i + 1;
        }
        assert(acc + Seq::<char>::empty() =~= acc);
        Ok(())
    }

    /// A function: prologue with a frame sized from the largest slot in it,
    /// the parameter stores, the body, and the epilogue.
#[verifier::spinoff_prover]
    fn emit_function(&mut self, node: &Node) -> (r: Result<(), CodeGenError>)
        requires
            node is Function,
        ensures
            match gen(node.ast(), old(self).label) {
                Ok((t, l)) => r is Ok && final(self).out@ =~= old(self).out@ + t
                    && final(self).label == l,
                Err(e) => r == Err::<(), CodeGenError>(e),
            },
        decreases node, 0nat,
    {
        match node {
            Node::Function { name, args, body } => {
                let frame = frame_for(max_u128(params_max_exec(args), compute_max_offset(body)));
                self.gen_prologue(name, frame);
                self.emit_param_stores(args);
                if let Err(e) = self.gen_node(body) {
                    return Err(e);
                }
                self.gen_epilogue(frame);
                Ok(())
            },
            _ => Ok(()),  // excluded by the precondition
        }
    }

    /// The one builtin, `write(str)`: it measures the string with a
    /// byte-scan loop of its own label and issues the write system call.
#[verifier::spinoff_prover]
    fn emit_syscall(&mut self, node: &Node) -> (r: Result<(), CodeGenError>)
        requires
            node is Syscall,
        ensures
            match gen(node.ast(), old(self).label) {
                Ok((t, l)) => r is Ok && final(self).out@ =~= old(self).out@ + t
                    && final(self).label == l,
                Err(e) => r == Err::<(), CodeGenError>(e),
            },
        decreases node, 0nat,
    {
        match node {
            Node::Syscall { name, args } => {
                if let Err(e) = self.gen_args(args) {
                    return Err(e);
                }
                if !crate::variable::str_eq(name.as_str(), "write") {
                    return Err(CodeGenError::UnknownSyscall);
                }
                let id = match self.fresh_label() {
                    Ok(id) => id,
                    Err(e) => return Err(e),
                };
                self.emit_pops(args.len());
                self.emit_write(id);
                Ok(())
            },
            _ => Ok(()),  // excluded by the precondition
        }
    }

    /// An assignment: the value is stored into the variable's slot and left
    /// on the stack.
    fn emit_assign(&mut self, node: &Node) -> (r: Result<(), CodeGenError>)
        requires
            node is Assign,
        ensures
            match gen(node.ast(), old(self).label) {
                Ok((t, l)) => r is Ok && final(self).out@ =~= old(self).out@ + t
                    && final(self).label == l,
                Err(e) => r == Err::<(), CodeGenError>(e),
            },
        decreases node, 0nat,
    {
        match node {
            Node::Assign { lhs, rhs } => {
                if let Err(e) = self.gen_node(rhs) {
                    return Err(e);
                }
                match &**lhs {
                    Node::Var { offset } => {
                        assert(lhs.ast() == Ast::Var(*offset));
                        self.emit_store(*offset as u128);
                        self.emit("    str x1, [sp, #-16]!\n");
                        Ok(())
                    },
                    _ => Err(CodeGenError::AssignToNonVariable),
                }
            },
            _ => Ok(()),  // excluded by the precondition
        }
    }

    /// A binary operation: left, then right, popped right then left.
    fn emit_binop(&mut self, node: &Node) -> (r: Result<(), CodeGenError>)
        requires
            node is BinaryOp,
        ensures
            match gen(node.ast(), old(self).label) {
                Ok((t, l)) => r is Ok && final(self).out@ =~= old(self).out@ + t
                    && final(self).label == l,
                Err(e) => r == Err::<(), CodeGenError>(e),
            },
        decreases node, 0nat,
    {
        match node {
            Node::BinaryOp { op, lhs, rhs } => {
                if let Err(e) = self.gen_node(lhs) {
                    return Err(e);
                }
                if let Err(e) = self.gen_node(rhs) {
                    return Err(e);
                }
                self.emit("    ldr x1, [sp], #16\n    ldr x0, [sp], #16\n");
                self.emit_op(*op);
                self.emit("    str x0, [sp, #-16]!\n");
                Ok(())
            },
            _ => Ok(()),  // excluded by the precondition
        }
    }

    /// `if`: the condition, a branch to the else label when it is zero, the
    /// then branch, a jump to the end, the else label and the optional else.
#[verifier::spinoff_prover]
    fn emit_if(&mut self, node: &Node) -> (r: Result<(), CodeGenError>)
        requires
            node is If,
        ensures
            match gen(node.ast(), old(self).label) {
                Ok((t, l)) => r is Ok && final(self).out@ =~= old(self).out@ + t
                    && final(self).label == l,
                Err(e) => r == Err::<(), CodeGenError>(e),
            },
        decreases node, 0nat,
    {
        match node {
            Node::If { cond, then_stmt, else_stmt } => {
                if let Err(e) = self.gen_node(cond) {
                    return Err(e);
                }
                let id = match self.fresh_label() {
                    Ok(id) => id as u128,
                    Err(e) => return Err(e),
                };
                self.emit_if_test(id);
                if let Err(e) = self.gen_node(then_stmt) {
                    return Err(e);
                }
                self.emit_if_else(id);
                match else_stmt {
                    Some(e) => {
                        if let Err(err) = self.gen_node(e) {
                            return Err(err);
                        }
                    },
                    None => {},
                }
                self.emit_end_label(id);
                Ok(())
            },
            _ => Ok(()),  // excluded by the precondition
        }
    }

    /// `while`: the loop label, the condition, a branch to the end when it is
    /// zero, the body and a jump back.
#[verifier::spinoff_prover]
    fn emit_while(&mut self, node: &Node) -> (r: Result<(), CodeGenError>)
        requires
            node is While,
        ensures
            match gen(node.ast(), old(self).label) {
                Ok((t, l)) => r is Ok && final(self).out@ =~= old(self).out@ + t
                    && final(self).label == l,
                Err(e) => r == Err::<(), CodeGenError>(e),
            },
        decreases node, 0nat,
    {
        match node {
            Node::While { cond, body } => {
                let id = match self.fresh_label() {
                    Ok(id) => id as u128,
                    Err(e) => return Err(e),
                };
                self.emit_while_head(id);
                if let Err(e) = self.gen_node(cond) {
                    return Err(e);
                }
                self.emit_while_test(id);
                if let Err(e) = self.gen_node(body) {
                    return Err(e);
                }
                self.emit_while_back(id);
                Ok(())
            },
            _ => Ok(()),  // excluded by the precondition
        }
    }

    /// `for`: the init (discarded), a jump to the condition, the body, the
    /// update (discarded), then the condition and a branch back while nonzero.
#[verifier::spinoff_prover]
    fn emit_for(&mut self, node: &Node) -> (r: Result<(), CodeGenError>)
        requires
            node is For,
        ensures
            match gen(node.ast(), old(self).label) {
                Ok((t, l)) => r is Ok && final(self).out@ =~= old(self).out@ + t
                    && final(self).label == l,
                Err(e) => r == Err::<(), CodeGenError>(e),
            },
        decreases node, 0nat,
    {
        match node {
            Node::For { init, cond, update, body } => {
                let id = match self.fresh_label() {
                    Ok(id) => id as u128,
                    Err(e) => return Err(e),
                };
                if let Err(e) = self.gen_node(init) {
                    return Err(e);
                }
                self.emit_for_head(id);
                if let Err(e) = self.gen_node(body) {
                    return Err(e);
                }
                if let Err(e) = self.gen_node(update) {
                    return Err(e);
                }
                self.emit_for_mid(id);
                if let Err(e) = self.gen_node(cond) {
                    return Err(e);
                }
                self.emit_for_tail(id);
                Ok(())
            },
            _ => Ok(()),  // excluded by the precondition
        }
    }

    /// Emits the code of a tree: each expression leaves exactly one value on
    /// the stack.
#[verifier::spinoff_prover]
    pub fn gen_node(&mut self, node: &Node) -> (r: Result<(), CodeGenError>)
        ensures
            match gen(node.ast(), old(self).label) {
                Ok((t, l)) => r is Ok && final(self).out@ =~= old(self).out@ + t
                    && final(self).label == l,
                Err(e) => r == Err::<(), CodeGenError>(e),
            },
        decreases node, 1nat,
    {
        match node {
            Node::Num { value } => {
                self.push_imm(*value);
                Ok(())
            },
            Node::StringLiteral { value } => self.emit_string(value),
            Node::Var { offset } => {
                self.emit_var(*offset);
                Ok(())
            },
            Node::Sequence { first, second } => {
                if let Err(e) = self.gen_node(first) {
                    return Err(e);
                }
                self.emit("    ldr x0, [sp], #16\n");
                self.gen_node(second)
            },
            Node::Function { .. } => self.emit_function(node),
            Node::Call { name, args } => {
                if let Err(e) = self.gen_args(args) {
                    return Err(e);
                }
                self.emit_pops(args.len());
                self.emit_call_tail(name);
                Ok(())
            },
            Node::Syscall { .. } => self.emit_syscall(node),
            Node::Assign { .. } => self.emit_assign(node),
            Node::BinaryOp { .. } => self.emit_binop(node),
            Node::Return { expr } => {
                if let Err(e) = self.gen_node(expr) {
                    return Err(e);
                }
                self.emit("    ldr x0, [sp], #16\n");
                self.emit("    mov sp, x29\n    ldp x29, x30, [sp], #16\n    ret\n");
                Ok(())
            },
            Node::If { .. } => self.emit_if(node),
            Node::While { .. } => self.emit_while(node),
            Node::For { .. } => self.emit_for(node),
            Node::Deref { expr } => {
                if let Err(e) = self.gen_node(expr) {
                    return Err(e);
                }
                self.emit("    ldr x0, [sp], #16\n");
                self.emit("    ldr x0, [x0]\n");
                self.emit("    str x0, [sp, #-16]!\n");
                Ok(())
            },
            Node::Addr { expr } => match &**expr {
                Node::Var { offset } => {
                    assert(expr.ast() == Ast::Var(*offset));
                    self.emit("    mov x0, x29\n    sub x0, x0, #");
                    self.emit_num(*offset as u128);
                    self.emit("\n");
                    self.emit("    str x0, [sp, #-16]!\n");
                    Ok(())
                },
                Node::Deref { expr: inner } => {
                    assert(expr.ast() == Ast::Deref(Box::new(inner.ast())));
                    self.gen_node(inner)
                },
                _ => Err(CodeGenError::AddrOfNonAddressable),
            },
            Node::ArrayAssign { offset, elements } => {
                if let Err(e) = self.gen_elems(*offset, elements) {
                    return Err(e);
                }
                self.emit("    mov x0, #0\n");
                self.emit("    str x0, [sp, #-16]!\n");
                Ok(())
            },
        }
    }
}

/// Generates the assembly for a whole tree: a text-section header, then the
/// code of each function, with labels numbered from 0.
pub fn generate(node: &Node) -> (r: Result<String, CodeGenError>)
    ensures
        match assembly(node.ast()) {
            Ok(t) => r matches Ok(s) && s@ == t,
            Err(e) => r == Err::<String, CodeGenError>(e),
        },
{
    let mut g = CodeGen::new();
    g.emit(".section __TEXT,__text\n");
    match g.gen_node(node) {
        Ok(()) => Ok(g.out),
        Err(e) => Err(e),
    }
}


/// The tokens of `fn <name>() { <n>; }`, at the positions `at`.
pub open spec fn number_program_tokens(name: Seq<char>, n: u64, at: Seq<usize>) -> Seq<Tk> {
    seq![
        (Lexeme::Fixed(TokenKind::Fn), at[0]),
        (Lexeme::Ident(name), at[1]),
        (Lexeme::Fixed(TokenKind::LParen), at[2]),
        (Lexeme::Fixed(TokenKind::RParen), at[3]),
        (Lexeme::Fixed(TokenKind::LBrace), at[4]),
        (Lexeme::Num(n), at[5]),
        (Lexeme::Fixed(TokenKind::Semicolon), at[6]),
        (Lexeme::Fixed(TokenKind::RBrace), at[7]),
        (Lexeme::Fixed(TokenKind::Eof), at[8]),
    ]
}

/// For every number `n`, a program whose body is `n;` compiles: it parses
/// to a function whose body is `Num(n)`, and its code pushes `n`, and the
/// epilogue pops it into `x0`, the return register, right before `ret`.
pub proof fn number_program_returns_it(name: Seq<char>, n: u64, at: Seq<usize>, env: Env)
    requires
        at.len() == 9,
    ensures
        parse_program(number_program_tokens(name, n, at), env) == Ok::<(Ast, Seq<Tk>, Env), (Seq<char>, usize)>(
            (
                Ast::Function(name, Seq::empty(), Box::new(Ast::Num(n))),
                seq![(Lexeme::Fixed(TokenKind::Eof), at[8])],
                env,
            ),
        ),
        assembly(Ast::Function(name, Seq::empty(), Box::new(Ast::Num(n)))) matches Ok(t) && t
            =~= ".section __TEXT,__text\n"@ + prologue(name, 48) + "    mov x0, #"@ + dec(
            n as nat,
        ) + "\n"@ + push_x0() + pop_x0() + "    add sp, sp, #"@ + dec(48)
            + "\n    ldp x29, x30, [sp], #16\n    ret\n"@,
{
    number_program_parses(name, n, at, env);
    number_program_code(name, n);
}

/// Taking one token at a time off the tokens of a number program steps
/// through its suffixes.
proof fn lemma_number_tokens_steps(name: Seq<char>, n: u64, at: Seq<usize>)
    requires
        at.len() == 9,
    ensures
        forall|k: int|
            0 <= k < 8 ==> #[trigger] number_program_tokens(name, n, at).subrange(k, 9).drop_first()
                == number_program_tokens(name, n, at).subrange(k + 1, 9),
        number_program_tokens(name, n, at).subrange(0, 9) == number_program_tokens(name, n, at),
        number_program_tokens(name, n, at).subrange(8, 9) == seq![(Lexeme::Fixed(TokenKind::Eof), at[8])],
{
    let ts = number_program_tokens(name, n, at);
    assert forall|k: int| 0 <= k < 8 implies #[trigger] ts.subrange(k, 9).drop_first() == ts.subrange(k + 1, 9) by {
        assert(ts.subrange(k, 9).drop_first() =~= ts.subrange(k + 1, 9));
    }
    assert(ts.subrange(0, 9) =~= ts);
    assert(ts.subrange(8, 9) =~= seq![(Lexeme::Fixed(TokenKind::Eof), at[8])]);
}

#[verifier::spinoff_prover]
proof fn number_statement_parses(name: Seq<char>, n: u64, at: Seq<usize>, env: Env)
    requires
        at.len() == 9,
    ensures
        parse_stmt(number_program_tokens(name, n, at).subrange(5, 9), env) == Ok::<(Ast, Seq<Tk>, Env), (Seq<char>, usize)>(
            (Ast::Num(n), number_program_tokens(name, n, at).subrange(7, 9), env),
        ),
{
    let ts = number_program_tokens(name, n, at);
    lemma_number_tokens_steps(name, n, at);
    let t5 = ts.subrange(5, 9);
    let t6 = ts.subrange(6, 9);
    let t7 = ts.subrange(7, 9);
    let t8 = ts.subrange(8, 9);
    let num = Ast::Num(n);
    assert(parse_primary(t5, env) == Ok::<(Ast, Seq<Tk>, Env), (Seq<char>, usize)>((num, t6, env)));
    assert(parse_unary(t5, env) == parse_primary(t5, env));
    assert(parse_binary(t5, env, 0) == parse_unary(t5, env));
    assert(binary_rest(num, t6, env, 1) == Ok::<(Ast, Seq<Tk>, Env), (Seq<char>, usize)>((num, t6, env)));
    assert(parse_binary(t5, env, 1) == binary_rest(num, t6, env, 1));
    assert(binary_rest(num, t6, env, 2) == Ok::<(Ast, Seq<Tk>, Env), (Seq<char>, usize)>((num, t6, env)));
    assert(parse_binary(t5, env, 2) == binary_rest(num, t6, env, 2));
    assert(binary_rest(num, t6, env, 3) == Ok::<(Ast, Seq<Tk>, Env), (Seq<char>, usize)>((num, t6, env)));
    assert(parse_binary(t5, env, 3) == binary_rest(num, t6, env, 3));
    assert(binary_rest(num, t6, env, 4) == Ok::<(Ast, Seq<Tk>, Env), (Seq<char>, usize)>((num, t6, env)));
    assert(parse_binary(t5, env, 4) == binary_rest(num, t6, env, 4));
    assert(parse_assign(t5, env) == Ok::<(Ast, Seq<Tk>, Env), (Seq<char>, usize)>((num, t6, env)));
    assert(parse_expr(t5, env) == parse_assign(t5, env));
    assert(expect(t6, TokenKind::Semicolon) == Ok::<Seq<Tk>, (Seq<char>, usize)>(t7));
    assert(parse_stmt(t5, env) == Ok::<(Ast, Seq<Tk>, Env), (Seq<char>, usize)>((num, t7, env)));
}

#[verifier::spinoff_prover]
proof fn number_program_parses(name: Seq<char>, n: u64, at: Seq<usize>, env: Env)
    requires
        at.len() == 9,
    ensures
        parse_program(number_program_tokens(name, n, at), env) == Ok::<(Ast, Seq<Tk>, Env), (Seq<char>, usize)>(
            (
                Ast::Function(name, Seq::empty(), Box::new(Ast::Num(n))),
                seq![(Lexeme::Fixed(TokenKind::Eof), at[8])],
                env,
            ),
        ),
{
    let ts = number_program_tokens(name, n, at);
    lemma_number_tokens_steps(name, n, at);
    let t5 = ts.subrange(5, 9);
    let t6 = ts.subrange(6, 9);
    let t7 = ts.subrange(7, 9);
    let t8 = ts.subrange(8, 9);
    number_statement_parses(name, n, at, env);
    let num = Ast::Num(n);
    assert(parse_block(seq![num], t7, env) == Ok::<(Seq<Ast>, Seq<Tk>, Env), (Seq<char>, usize)>((seq![num], t7, env)));
    assert(Seq::<Ast>::empty().push(num) =~= seq![num]);
    assert(parse_block(Seq::empty(), t5, env) == Ok::<(Seq<Ast>, Seq<Tk>, Env), (Seq<char>, usize)>((seq![num], t7, env)));
    assert(crate::node::fold(seq![num]) == num);
    let f = Ast::Function(name, Seq::empty(), Box::new(num));
    assert(parse_function(ts, env) == Ok::<(Ast, Seq<Tk>, Env), (Seq<char>, usize)>((f, t8, env)));
    assert(parse_functions(seq![f], t8, env) == Ok::<(Seq<Ast>, Seq<Tk>, Env), (Seq<char>, usize)>((seq![f], t8, env)));
    assert(Seq::<Ast>::empty().push(f) =~= seq![f]);
    assert(parse_functions(Seq::empty(), ts, env) == Ok::<(Seq<Ast>, Seq<Tk>, Env), (Seq<char>, usize)>((seq![f], t8, env)));
    assert(crate::node::fold(seq![f]) == f);
}

proof fn number_program_code(name: Seq<char>, n: u64)
    ensures
        assembly(Ast::Function(name, Seq::empty(), Box::new(Ast::Num(n)))) matches Ok(t) && t
            =~= ".section __TEXT,__text\n"@ + prologue(name, 48) + "    mov x0, #"@ + dec(
            n as nat,
        ) + "\n"@ + push_x0() + pop_x0() + "    add sp, sp, #"@ + dec(48)
            + "\n    ldp x29, x30, [sp], #16\n    ret\n"@,
{
    let num = Ast::Num(n);
    let f = Ast::Function(name, Seq::empty(), Box::new(num));
    assert(max_offset(num) == 0);
    assert(params_max(Seq::empty(), 0) == 0);
    assert(param_stores(Seq::empty(), 0) == Seq::<char>::empty());
    assert(frame_size(max(0, 0)) == 48);
    let tb = "    mov x0, #"@ + dec(n as nat) + "\n"@ + push_x0();
    assert(gen(num, 0) == Ok::<(Seq<char>, u64), CodeGenError>((tb, 0)));
    assert(gen(f, 0) == Ok::<(Seq<char>, u64), CodeGenError>(
        (prologue(name, 48) + Seq::<char>::empty() + tb + epilogue(48), 0),
    ));
}

/// The tree of `fn main() { <n>; }`.
pub open spec fn main_returning(n: u64) -> Ast {
    Ast::Function(ascii_chars(seq![109u8, 97, 105, 110]), Seq::empty(), Box::new(Ast::Num(n)))
}

/// For every number `n`, the program `fn main() { <n>; }` compiles: its text
/// lexes, parses to a function `main` whose body is `Num(n)`, and the code
/// for it pushes `n` and pops it into `x0`, the return register, right
/// before `main` returns.
#[verifier::spinoff_prover]
pub proof fn number_program_compiles(n: u64, env: Env)
    ensures
        lex(number_program_text(n), 0) is Ok,
        parse_program(lex(number_program_text(n), 0)->Ok_0, env) is Ok,
        parse_program(lex(number_program_text(n), 0)->Ok_0, env)->Ok_0.0 == main_returning(n),
        assembly(main_returning(n)) is Ok,
        assembly(main_returning(n))->Ok_0 =~= ".section __TEXT,__text\n"@ + prologue(
            ascii_chars(seq![109u8, 97, 105, 110]),
            48,
        ) + "    mov x0, #"@ + dec(n as nat) + "\n"@ + push_x0() + pop_x0()
            + "    add sp, sp, #"@ + dec(48) + "\n    ldp x29, x30, [sp], #16\n    ret\n"@,
{
    number_program_lexes(n);
    let len = digits_of(n as nat).len();
    let at = seq![
        0usize,
        3usize,
        7usize,
        8usize,
        10usize,
        12usize,
        (12 + len) as usize,
        (14 + len) as usize,
        (15 + len) as usize,
    ];
    let name = ascii_chars(seq![109u8, 97, 105, 110]);
    number_program_returns_it(name, n, at, env);
    assert(lex(number_program_text(n), 0)->Ok_0 =~= number_program_tokens(name, n, at));
}

} // verus!
