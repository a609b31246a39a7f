use vstd::prelude::*;

verus! {

/// The layout in which a container places each child where the child itself
/// says, starting from the container's position.
#[derive(Default, Debug)]
pub struct Manual;

/// The line counter after one more child was placed: `placed` children are
/// already on the current line, which holds `per_line` of them. When the new
/// child fills the line the counter starts over and the next child opens a
/// new line (`true`). A `per_line` of zero never wraps.
pub open spec fn line_step(placed: nat, per_line: nat) -> (nat, bool) {
    if placed + 1 == per_line {
        (0, true)
    } else {
        ((placed + 1) as nat, false)
    }
}

/// The line counter after `n` children were placed from the start of a run.
pub open spec fn line_count(n: nat, per_line: nat) -> nat
    decreases n,
{
    if n == 0 {
        0
    } else {
        line_step(line_count((n - 1) as nat, per_line), per_line).0
    }
}

/// Counts one more child on the current line of a wrapping layout (see
/// `line_step`); the layouts that lay out an iterator in lines of
/// `per_line` children use it after each child.
pub fn next_in_line(placed: usize, per_line: usize) -> (res: (usize, bool))
    requires
        placed < usize::MAX,
    ensures
        (res.0 as nat, res.1) == line_step(placed as nat, per_line as nat),
{
    let count = placed + 1;
    if per_line == count {
        (0, true)
    } else {
        (count, false)
    }
}

/// In lines of `per_line > 0` children, the counter after `n` children is
/// `n % per_line`, and the `n`-th child closes its line exactly when `n` is a
/// multiple of `per_line`.
pub proof fn law_lines_hold_per_line(n: nat, per_line: nat)
    requires
        per_line > 0,
    ensures
        line_count(n, per_line) == n % per_line,
        n > 0 ==> (line_step(line_count((n - 1) as nat, per_line), per_line).1 <==> n % per_line
            == 0),
    decreases n,
{
    if n > 0 {
        law_lines_hold_per_line((n - 1) as nat, per_line);
        assert(((n - 1) as nat) % per_line + 1 == per_line <==> n % per_line == 0) by (nonlinear_arith)
            requires
                per_line > 0,
                n > 0,
        ;
        assert(((n - 1) as nat) % per_line + 1 != per_line ==> ((n - 1) as nat) % per_line + 1 == n
            % per_line) by (nonlinear_arith)
            requires
                per_line > 0,
                n > 0,
        ;
    } else {
        assert(0nat % per_line == 0) by (nonlinear_arith)
            requires
                per_line > 0,
        ;
    }
}

} // verus!
