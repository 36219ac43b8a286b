//! Properties of the semantics: determinism, loops, conditionals.
use crate::semantics::{
    CmpModel, ProgramModel, StmtModel, Store, cmp_value, run_block, run_program, run_stmt,
    program_result, stmt_ends, stmt_outcome,
};
use vstd::prelude::*;

verus! {

/// A statement's run that ends within some fuel ends the same way within any larger fuel.
pub proof fn lemma_stmt_fuel_monotone(st: StmtModel, s: Store, f: nat, g: nat)
    requires
        run_stmt(st, s, f) is Some,
        f <= g,
    ensures
        run_stmt(st, s, g) == run_stmt(st, s, f),
    decreases f, st, 0nat,
{
    match st {
        StmtModel::Assign(_, _) => {},
        StmtModel::If(c, t, e) => {
            match cmp_value(c, s) {
                Err(_) => {},
                Ok(b) => if b {
                    lemma_block_fuel_monotone(t, 0, s, f, g);
                } else {
                    lemma_block_fuel_monotone(e, 0, s, f, g);
                },
            }
        },
        StmtModel::While(c, body) => {
            match cmp_value(c, s) {
                Err(_) => {},
                Ok(b) => if b {
                    let f1 = (f - 1) as nat;
                    let g1 = (g - 1) as nat;
                    lemma_block_fuel_monotone(body, 0, s, f1, g1);
                    match run_block(body, 0, s, f1) {
                        Some(Ok(s2)) => {
                            lemma_stmt_fuel_monotone(st, s2, f1, g1);
                        },
                        _ => {},
                    }
                },
            }
        },
    }
}

/// A block's run that ends within some fuel ends the same way within any larger fuel.
pub proof fn lemma_block_fuel_monotone(b: Seq<StmtModel>, i: nat, s: Store, f: nat, g: nat)
    requires
        run_block(b, i, s, f) is Some,
        f <= g,
    ensures
        run_block(b, i, s, g) == run_block(b, i, s, f),
    decreases f, b, b.len() - i,
{
    if i < b.len() {
        lemma_stmt_fuel_monotone(b[i as int], s, f, g);
        match run_stmt(b[i as int], s, f) {
            Some(Ok(s2)) => {
                lemma_block_fuel_monotone(b, i + 1, s2, f, g);
            },
            _ => {},
        }
    }
}

/// Evaluation is deterministic: two runs of one program from a fresh store
/// that both end yield the same result, whatever fuel each was given.
pub proof fn lemma_program_deterministic(p: ProgramModel, f1: nat, f2: nat)
    requires
        run_program(p, f1) is Some,
        run_program(p, f2) is Some,
    ensures
        run_program(p, f1) == run_program(p, f2),
{
    if f1 <= f2 {
        lemma_block_fuel_monotone(p.statements, 0, Map::empty(), f1, f2);
    } else {
        lemma_block_fuel_monotone(p.statements, 0, Map::empty(), f2, f1);
    }
}

/// A conditional runs exactly one of its branches: when the comparison holds
/// it runs as its first branch alone, whatever the second branch holds; when
/// it fails, as its second branch alone, whatever the first holds.
pub proof fn lemma_if_exclusive(
    c: CmpModel,
    t: Seq<StmtModel>,
    e: Seq<StmtModel>,
    other: Seq<StmtModel>,
    s: Store,
    fuel: nat,
)
    ensures
        cmp_value(c, s) == Ok::<bool, Seq<char>>(true) ==> {
            &&& run_stmt(StmtModel::If(c, t, e), s, fuel) == run_block(t, 0, s, fuel)
            &&& run_stmt(StmtModel::If(c, t, e), s, fuel) == run_stmt(
                StmtModel::If(c, t, other),
                s,
                fuel,
            )
        },
        cmp_value(c, s) == Ok::<bool, Seq<char>>(false) ==> {
            &&& run_stmt(StmtModel::If(c, t, e), s, fuel) == run_block(e, 0, s, fuel)
            &&& run_stmt(StmtModel::If(c, t, e), s, fuel) == run_stmt(
                StmtModel::If(c, other, e),
                s,
                fuel,
            )
        },
{
}

/// Running `b` with `w` appended is running `b`, then `w` on what `b` left.
pub proof fn lemma_block_then(b: Seq<StmtModel>, w: StmtModel, i: nat, s: Store, f: nat)
    requires
        i <= b.len(),
    ensures
        run_block(b.push(w), i, s, f) == match run_block(b, i, s, f) {
            Some(Ok(s2)) => run_stmt(w, s2, f),
            other => other,
        },
    decreases b.len() - i,
{
    let bw = b.push(w);
    if i < b.len() {
        assert(bw[i as int] == b[i as int]);
        match run_stmt(b[i as int], s, f) {
            Some(Ok(s2)) => {
                lemma_block_then(b, w, i + 1, s2, f);
            },
            _ => {},
        }
    } else {
        assert(bw[i as int] == w);
        match run_stmt(w, s, f) {
            Some(Ok(s3)) => {
                assert(run_block(bw, i + 1, s3, f) == Some(Ok::<Store, Seq<char>>(s3)));
            },
            _ => {},
        }
    }
}

/// One step of a loop: with one more unit of fuel, `while c do b` runs exactly
/// as `if c then (b; while c do b) else (nothing)`.
pub proof fn lemma_while_unrolls(c: CmpModel, b: Seq<StmtModel>, s: Store, fuel: nat)
    ensures
        run_stmt(StmtModel::While(c, b), s, fuel + 1) == run_stmt(
            StmtModel::If(c, b.push(StmtModel::While(c, b)), Seq::empty()),
            s,
            fuel,
        ),
{
    let w = StmtModel::While(c, b);
    lemma_block_then(b, w, 0, s, fuel);
    assert(run_block(Seq::<StmtModel>::empty(), 0, s, fuel) == Some(Ok::<Store, Seq<char>>(s)));
}

/// A loop is its own unrolling: `while c do b` ends from `s` exactly when
/// `if c then (b; while c do b) else (nothing)` does, and both end alike.
/// So a loop checks `c`, runs `b` while `c` holds, and stops the first time it fails.
pub proof fn lemma_while_is_unrolled_loop(c: CmpModel, b: Seq<StmtModel>, s: Store)
    ensures
        ({
            let w = StmtModel::While(c, b);
            let u = StmtModel::If(c, b.push(w), Seq::empty());
            &&& stmt_ends(w, s) == stmt_ends(u, s)
            &&& stmt_ends(w, s) ==> stmt_outcome(w, s) == stmt_outcome(u, s)
        }),
{
    let w = StmtModel::While(c, b);
    let u = StmtModel::If(c, b.push(w), Seq::empty());
    if stmt_ends(w, s) {
        let f = choose|fuel: nat| #[trigger] run_stmt(w, s, fuel) is Some;
        assert(f > 0);
        lemma_while_unrolls(c, b, s, (f - 1) as nat);
        assert(run_stmt(u, s, (f - 1) as nat) is Some);
        let g = choose|fuel: nat| #[trigger] run_stmt(u, s, fuel) is Some;
        lemma_while_unrolls(c, b, s, g);
        lemma_stmt_fuel_monotone_pair(w, s, f, g + 1);
    }
    if stmt_ends(u, s) {
        let g = choose|fuel: nat| #[trigger] run_stmt(u, s, fuel) is Some;
        lemma_while_unrolls(c, b, s, g);
        assert(run_stmt(w, s, g + 1) is Some);
    }
}

/// Two fuels under which a statement's run ends give the same outcome.
proof fn lemma_stmt_fuel_monotone_pair(st: StmtModel, s: Store, f: nat, g: nat)
    requires
        run_stmt(st, s, f) is Some,
        run_stmt(st, s, g) is Some,
    ensures
        run_stmt(st, s, f) == run_stmt(st, s, g),
{
    if f <= g {
        lemma_stmt_fuel_monotone(st, s, f, g);
    } else {
        lemma_stmt_fuel_monotone(st, s, g, f);
    }
}

/// The result of a program that halts is what its run yields within any fuel
/// that suffices: a fresh run always gives the same result.
pub proof fn lemma_program_result_is_any_run(p: ProgramModel, fuel: nat)
    requires
        run_program(p, fuel) is Some,
    ensures
        program_result(p) == run_program(p, fuel)->0,
{
    let f = choose|f: nat| #[trigger] run_program(p, f) is Some;
    lemma_program_deterministic(p, f, fuel);
}

/// A loop that ends without error leaves a store in which its comparison fails.
pub proof fn lemma_while_exits_when_false(c: CmpModel, b: Seq<StmtModel>, s: Store, fuel: nat)
    requires
        run_stmt(StmtModel::While(c, b), s, fuel) matches Some(Ok(_)),
    ensures
        cmp_value(c, run_stmt(StmtModel::While(c, b), s, fuel)->0->Ok_0) == Ok::<bool, Seq<char>>(
            false,
        ),
    decreases fuel,
{
    if cmp_value(c, s) == Ok::<bool, Seq<char>>(true) {
        match run_block(b, 0, s, (fuel - 1) as nat) {
            Some(Ok(s2)) => {
                lemma_while_exits_when_false(c, b, s2, (fuel - 1) as nat);
            },
            _ => {},
        }
    }
}

} // verus!
