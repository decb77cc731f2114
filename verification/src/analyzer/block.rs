//! The analysis of statements: what a block does to the record of its
//! function, which uniformity it yields, how it may be left early, and
//! whether it puts an operation that requires uniform control flow where
//! the control flow is not uniform.

use crate::analyzer::error::AnalysisError;
use crate::analyzer::flags::{ExitFlags, GlobalUse};
use crate::analyzer::info::{views, FunctionInfo, FunctionInfoView};
use crate::analyzer::steps::Trace;
use crate::analyzer::terms::{
    lemma_admits_push, lemma_admits_wf, lemma_apply_terms_empty, lemma_apply_terms_push,
    lemma_apply_terms_shape, lemma_parts, operand_terms, with_optional, Term,
};
use crate::analyzer::uniformity::{first_of, first_present, Uniformity, UniformityDisruptor};
use crate::arena::Handle;
use crate::ir::{Expression, Function, Statement, SwitchCase};
use vstd::prelude::*;

verus! {

/// The terms of a statement that holds no other statement, in the order
/// in which their uniformities are joined.
pub open spec fn leaf_terms(stmt: Statement) -> Seq<Term> {
    match stmt {
        Statement::Return { value } => with_optional(seq![], value),
        Statement::Store { pointer, value } => seq![
            Term::Ref { handle: pointer, global_use: GlobalUse::write() },
        ].push(Term::read(value)),
        Statement::ImageStore { image, coordinate, array_index, value } => with_optional(
            seq![Term::Ref { handle: image, global_use: GlobalUse::write() }].push(
                Term::read(coordinate),
            ),
            array_index,
        ).push(Term::read(value)),
        Statement::Call { function, arguments, result } => with_optional(
            seq![Term::Call(function)] + operand_terms(arguments@),
            result,
        ),
        _ => seq![],
    }
}

/// The ways in which a statement that holds no other statement may leave
/// its block early.
pub open spec fn leaf_exit(stmt: Statement, functions: Seq<FunctionInfoView>) -> ExitFlags {
    match stmt {
        Statement::Kill => ExitFlags::may_kill(),
        Statement::Return { .. } => ExitFlags::may_return(),
        Statement::Call { function, .. } => if functions[function.index as int].may_kill {
            ExitFlags::may_kill()
        } else {
            ExitFlags::empty()
        },
        _ => ExitFlags::empty(),
    }
}

/// All the terms of a statement, those of the statements that it holds
/// included, in the order in which a successful analysis applies them.
pub open spec fn statement_terms(stmt: Statement) -> Seq<Term>
    decreases stmt,
{
    match stmt {
        Statement::Block(block) => block_terms(block@),
        Statement::If { condition, accept, reject } => seq![Term::read(condition)] + block_terms(
            accept@,
        ) + block_terms(reject@),
        Statement::Switch { selector, cases, default } => seq![Term::read(selector)] + cases_terms(
            cases@,
        ) + block_terms(default@),
        Statement::Loop { body, continuing } => block_terms(body@) + block_terms(continuing@),
        _ => leaf_terms(stmt),
    }
}

/// All the terms of a block, in the order in which a successful analysis
/// applies them.
pub open spec fn block_terms(statements: Seq<Statement>) -> Seq<Term>
    decreases statements,
{
    if statements.len() == 0 {
        seq![]
    } else {
        block_terms(statements.drop_last()) + statement_terms(statements.last())
    }
}

/// All the terms of the cases of a switch, in the order in which a
/// successful analysis applies them.
pub open spec fn cases_terms(cases: Seq<SwitchCase>) -> Seq<Term>
    decreases cases,
{
    if cases.len() == 0 {
        seq![]
    } else {
        cases_terms(cases.drop_last()) + block_terms(cases.last().body@)
    }
}

/// The error that an operation requiring uniform control flow makes where
/// the control flow is disrupted.
pub open spec fn violation(uniformity: Uniformity, disruptor: Option<UniformityDisruptor>)
    -> Option<AnalysisError> {
    match (uniformity.require_uniform, disruptor) {
        (Some(expr), Some(cause)) => Some(AnalysisError::NonUniformControlFlow(expr, cause)),
        _ => None,
    }
}

/// How far the analysis of some statements has come.
#[verifier::ext_equal]
pub struct Walk {
    /// The record as the statements analysed so far have left it.
    pub state: FunctionInfoView,
    /// The earliest reason for which what follows is in non-uniform
    /// control flow.
    pub disruptor: Option<UniformityDisruptor>,
    /// The uniformity and the exits of the statements analysed so far, or
    /// the error that ended the analysis.
    pub result: Result<(Uniformity, ExitFlags), AnalysisError>,
}

impl FunctionInfoView {
    /// The analysis of one statement under `disruptor`.
    pub open spec fn process_statement(
        self,
        stmt: Statement,
        functions: Seq<FunctionInfoView>,
        disruptor: Option<UniformityDisruptor>,
    ) -> Walk
        decreases stmt,
    {
        match stmt {
            Statement::Block(block) => self.process_block(block@, functions, disruptor),
            Statement::If { condition, accept, reject } => {
                let head = self.apply_terms(seq![Term::read(condition)], functions);
                match violation(head.uniformity, disruptor) {
                    Some(error) => Walk { state: head.state, disruptor, result: Err(error) },
                    None => {
                        let branch = first_of(disruptor, head.uniformity.disruptor());
                        let accepted = head.state.process_block(accept@, functions, branch);
                        match accepted.result {
                            Err(_) => accepted,
                            Ok((accept_uniformity, accept_exit)) => {
                                let rejected = accepted.state.process_block(
                                    reject@,
                                    functions,
                                    branch,
                                );
                                match rejected.result {
                                    Err(_) => rejected,
                                    Ok((reject_uniformity, reject_exit)) => Walk {
                                        state: rejected.state,
                                        disruptor,
                                        result: Ok(
                                            (
                                                head.uniformity.join(accept_uniformity).join(
                                                    reject_uniformity,
                                                ),
                                                accept_exit.union(reject_exit),
                                            ),
                                        ),
                                    },
                                }
                            },
                        }
                    },
                }
            },
            Statement::Switch { selector, cases, default } => {
                let head = self.apply_terms(seq![Term::read(selector)], functions);
                let branch = first_of(disruptor, head.uniformity.disruptor());
                let tried = head.state.process_cases(cases@, functions, disruptor, branch);
                match tried.result {
                    Err(_) => tried,
                    Ok((cases_uniformity, cases_exit)) => {
                        let last = tried.state.process_block(default@, functions, branch);
                        match last.result {
                            Err(_) => last,
                            Ok((default_uniformity, default_exit)) => Walk {
                                state: last.state,
                                disruptor,
                                result: Ok(
                                    (
                                        head.uniformity.join(cases_uniformity).join(
                                            default_uniformity,
                                        ),
                                        cases_exit.union(default_exit),
                                    ),
                                ),
                            },
                        }
                    },
                }
            },
            Statement::Loop { body, continuing } => {
                let looped = self.process_block(body@, functions, disruptor);
                match looped.result {
                    Err(_) => looped,
                    Ok((body_uniformity, body_exit)) => {
                        let branch = first_of(disruptor, UniformityDisruptor::from_exit(body_exit));
                        let continued = looped.state.process_block(continuing@, functions, branch);
                        match continued.result {
                            Err(_) => continued,
                            Ok((continuing_uniformity, continuing_exit)) => Walk {
                                state: continued.state,
                                disruptor,
                                result: Ok(
                                    (
                                        body_uniformity.join(continuing_uniformity),
                                        body_exit.union(continuing_exit),
                                    ),
                                ),
                            },
                        }
                    },
                }
            },
            _ => {
                let applied = self.apply_terms(leaf_terms(stmt), functions);
                Walk {
                    state: applied.state,
                    disruptor,
                    result: Ok((applied.uniformity, leaf_exit(stmt, functions))),
                }
            },
        }
    }

    /// The analysis of a block that is entered under `disruptor`.
    ///
    /// The statements are analysed from left to right, each under the
    /// disruptor that those before it have left. A statement that requires
    /// uniform control flow under a disruptor ends the analysis with an
    /// error. Otherwise the possible exits of the statement disrupt what
    /// follows, unless something did already, and the uniformity and the
    /// exits of the statement are joined to those of the block.
    pub open spec fn process_block(
        self,
        statements: Seq<Statement>,
        functions: Seq<FunctionInfoView>,
        disruptor: Option<UniformityDisruptor>,
    ) -> Walk
        decreases statements,
    {
        if statements.len() == 0 {
            Walk { state: self, disruptor, result: Ok((Uniformity::none(), ExitFlags::empty())) }
        } else {
            let before = self.process_block(statements.drop_last(), functions, disruptor);
            match before.result {
                Err(_) => before,
                Ok((block_uniformity, block_exit)) => {
                    let current = before.state.process_statement(
                        statements.last(),
                        functions,
                        before.disruptor,
                    );
                    match current.result {
                        Err(error) => Walk {
                            state: current.state,
                            disruptor: before.disruptor,
                            result: Err(error),
                        },
                        Ok((uniformity, exit)) => match violation(uniformity, before.disruptor) {
                            Some(error) => Walk {
                                state: current.state,
                                disruptor: before.disruptor,
                                result: Err(error),
                            },
                            None => Walk {
                                state: current.state,
                                disruptor: first_of(
                                    before.disruptor,
                                    UniformityDisruptor::from_exit(exit),
                                ),
                                result: Ok(
                                    (block_uniformity.join(uniformity), block_exit.union(exit)),
                                ),
                            },
                        },
                    }
                },
            }
        }
    }

    /// The analysis of the cases of a switch. The first case is entered
    /// under `disruptor`. A case that falls through hands its disruptor,
    /// or else its possible exits, on to the next one; after any other
    /// case the next one is entered under `branch`.
    pub open spec fn process_cases(
        self,
        cases: Seq<SwitchCase>,
        functions: Seq<FunctionInfoView>,
        disruptor: Option<UniformityDisruptor>,
        branch: Option<UniformityDisruptor>,
    ) -> Walk
        decreases cases,
    {
        if cases.len() == 0 {
            Walk { state: self, disruptor, result: Ok((Uniformity::none(), ExitFlags::empty())) }
        } else {
            let before = self.process_cases(cases.drop_last(), functions, disruptor, branch);
            match before.result {
                Err(_) => before,
                Ok((uniformity, exit)) => {
                    let case = cases.last();
                    let current = before.state.process_block(
                        case.body@,
                        functions,
                        before.disruptor,
                    );
                    match current.result {
                        Err(error) => Walk {
                            state: current.state,
                            disruptor: before.disruptor,
                            result: Err(error),
                        },
                        Ok((case_uniformity, case_exit)) => Walk {
                            state: current.state,
                            disruptor: if case.fall_through {
                                first_of(
                                    before.disruptor,
                                    UniformityDisruptor::from_exit(case_exit),
                                )
                            } else {
                                branch
                            },
                            result: Ok(
                                (uniformity.join(case_uniformity), exit.union(case_exit)),
                            ),
                        },
                    }
                },
            }
        }
    }
}

/// What holds of the record that the analysis of a block leaves.
pub open spec fn walk_sound(
    state: FunctionInfoView,
    terms: Seq<Term>,
    functions: Seq<FunctionInfoView>,
    walk: Walk,
) -> bool {
    &&& walk.state.wf()
    &&& walk.state.expressions.len() == state.expressions.len()
    &&& walk.state.global_uses.len() == state.global_uses.len()
    &&& walk.result is Ok ==> walk.state == state.apply_terms(terms, functions).state
}

/// The analysis of a statement leaves a well-formed record of the same
/// shape; where it succeeds, the record is what all the terms of the
/// statement, applied in order, make of the record before.
pub proof fn lemma_statement_walk(
    state: FunctionInfoView,
    stmt: Statement,
    functions: Seq<FunctionInfoView>,
    disruptor: Option<UniformityDisruptor>,
)
    requires
        state.admits(statement_terms(stmt), functions),
    ensures
        walk_sound(
            state,
            statement_terms(stmt),
            functions,
            state.process_statement(stmt, functions, disruptor),
        ),
    decreases stmt,
{
    match stmt {
        Statement::Block(block) => {
            lemma_block_walk(state, block@, functions, disruptor);
        },
        Statement::If { condition, accept, reject } => {
            let head_terms = seq![Term::read(condition)];
            let accept_terms = block_terms(accept@);
            let reject_terms = block_terms(reject@);
            lemma_parts(state, head_terms + accept_terms, reject_terms, functions);
            lemma_parts(state, head_terms, accept_terms, functions);
            lemma_apply_terms_shape(state, head_terms, functions);
            let head = state.apply_terms(head_terms, functions);
            if violation(head.uniformity, disruptor) is None {
                let branch = first_of(disruptor, head.uniformity.disruptor());
                lemma_block_walk(head.state, accept@, functions, branch);
                let accepted = head.state.process_block(accept@, functions, branch);
                if accepted.result is Ok {
                    lemma_block_walk(accepted.state, reject@, functions, branch);
                }
            }
        },
        Statement::Switch { selector, cases, default } => {
            let head_terms = seq![Term::read(selector)];
            let cases_part = cases_terms(cases@);
            let default_terms = block_terms(default@);
            lemma_parts(state, head_terms + cases_part, default_terms, functions);
            lemma_parts(state, head_terms, cases_part, functions);
            lemma_apply_terms_shape(state, head_terms, functions);
            let head = state.apply_terms(head_terms, functions);
            let branch = first_of(disruptor, head.uniformity.disruptor());
            lemma_cases_walk(head.state, cases@, functions, disruptor, branch);
            let tried = head.state.process_cases(cases@, functions, disruptor, branch);
            if tried.result is Ok {
                lemma_block_walk(tried.state, default@, functions, branch);
            }
        },
        Statement::Loop { body, continuing } => {
            lemma_parts(state, block_terms(body@), block_terms(continuing@), functions);
            lemma_block_walk(state, body@, functions, disruptor);
            let looped = state.process_block(body@, functions, disruptor);
            match looped.result {
                Ok((_, body_exit)) => {
                    lemma_block_walk(
                        looped.state,
                        continuing@,
                        functions,
                        first_of(disruptor, UniformityDisruptor::from_exit(body_exit)),
                    );
                },
                Err(_) => {},
            }
        },
        _ => {
            lemma_apply_terms_shape(state, leaf_terms(stmt), functions);
        },
    }
}

/// The analysis of a block leaves a well-formed record of the same shape;
/// where it succeeds, the record is what all the terms of the block,
/// applied in order, make of the record before.
pub proof fn lemma_block_walk(
    state: FunctionInfoView,
    statements: Seq<Statement>,
    functions: Seq<FunctionInfoView>,
    disruptor: Option<UniformityDisruptor>,
)
    requires
        state.admits(block_terms(statements), functions),
    ensures
        walk_sound(
            state,
            block_terms(statements),
            functions,
            state.process_block(statements, functions, disruptor),
        ),
    decreases statements,
{
    if statements.len() == 0 {
        lemma_apply_terms_shape(state, block_terms(statements), functions);
        lemma_apply_terms_empty(state, functions);
    } else {
        lemma_parts(
            state,
            block_terms(statements.drop_last()),
            statement_terms(statements.last()),
            functions,
        );
        lemma_block_walk(state, statements.drop_last(), functions, disruptor);
        let before = state.process_block(statements.drop_last(), functions, disruptor);
        if before.result is Ok {
            lemma_statement_walk(before.state, statements.last(), functions, before.disruptor);
        }
    }
}

/// The analysis of the cases of a switch leaves a well-formed record of
/// the same shape; where it succeeds, the record is what all the terms of
/// the cases, applied in order, make of the record before.
pub proof fn lemma_cases_walk(
    state: FunctionInfoView,
    cases: Seq<SwitchCase>,
    functions: Seq<FunctionInfoView>,
    disruptor: Option<UniformityDisruptor>,
    branch: Option<UniformityDisruptor>,
)
    requires
        state.admits(cases_terms(cases), functions),
    ensures
        walk_sound(
            state,
            cases_terms(cases),
            functions,
            state.process_cases(cases, functions, disruptor, branch),
        ),
    decreases cases,
{
    if cases.len() == 0 {
        lemma_apply_terms_shape(state, cases_terms(cases), functions);
        lemma_apply_terms_empty(state, functions);
    } else {
        lemma_parts(
            state,
            cases_terms(cases.drop_last()),
            block_terms(cases.last().body@),
            functions,
        );
        lemma_cases_walk(state, cases.drop_last(), functions, disruptor, branch);
        let before = state.process_cases(cases.drop_last(), functions, disruptor, branch);
        if before.result is Ok {
            lemma_block_walk(before.state, cases.last().body@, functions, before.disruptor);
        }
    }
}

/// The ways in which a statement, or a statement that it holds at any
/// depth, may leave its block early.
pub open spec fn statement_exits(stmt: Statement, functions: Seq<FunctionInfoView>) -> ExitFlags
    decreases stmt,
{
    match stmt {
        Statement::Block(block) => block_exits(block@, functions),
        Statement::If { accept, reject, .. } => block_exits(accept@, functions).union(
            block_exits(reject@, functions),
        ),
        Statement::Switch { cases, default, .. } => cases_exits(cases@, functions).union(
            block_exits(default@, functions),
        ),
        Statement::Loop { body, continuing } => block_exits(body@, functions).union(
            block_exits(continuing@, functions),
        ),
        _ => leaf_exit(stmt, functions),
    }
}

/// The ways in which a statement of a block, at any depth, may leave its
/// block early.
pub open spec fn block_exits(statements: Seq<Statement>, functions: Seq<FunctionInfoView>)
    -> ExitFlags
    decreases statements,
{
    if statements.len() == 0 {
        ExitFlags::empty()
    } else {
        block_exits(statements.drop_last(), functions).union(
            statement_exits(statements.last(), functions),
        )
    }
}

/// The ways in which a statement of the cases of a switch, at any depth,
/// may leave its block early.
pub open spec fn cases_exits(cases: Seq<SwitchCase>, functions: Seq<FunctionInfoView>)
    -> ExitFlags
    decreases cases,
{
    if cases.len() == 0 {
        ExitFlags::empty()
    } else {
        cases_exits(cases.drop_last(), functions).union(
            block_exits(cases.last().body@, functions),
        )
    }
}

/// Where the analysis of a statement succeeds, the exits that it yields
/// are those of the statement and of the statements that it holds: a
/// possible return for each return, and a possible kill for each kill and
/// each call of a function that may kill.
pub proof fn lemma_statement_exits(
    state: FunctionInfoView,
    stmt: Statement,
    functions: Seq<FunctionInfoView>,
    disruptor: Option<UniformityDisruptor>,
)
    ensures
        match state.process_statement(stmt, functions, disruptor).result {
            Ok((_, exit)) => exit == statement_exits(stmt, functions),
            Err(_) => true,
        },
    decreases stmt,
{
    match stmt {
        Statement::Block(block) => {
            lemma_block_exits(state, block@, functions, disruptor);
        },
        Statement::If { condition, accept, reject } => {
            let head = state.apply_terms(seq![Term::read(condition)], functions);
            let branch = first_of(disruptor, head.uniformity.disruptor());
            lemma_block_exits(head.state, accept@, functions, branch);
            let accepted = head.state.process_block(accept@, functions, branch);
            lemma_block_exits(accepted.state, reject@, functions, branch);
        },
        Statement::Switch { selector, cases, default } => {
            let head = state.apply_terms(seq![Term::read(selector)], functions);
            let branch = first_of(disruptor, head.uniformity.disruptor());
            lemma_cases_exits(head.state, cases@, functions, disruptor, branch);
            let tried = head.state.process_cases(cases@, functions, disruptor, branch);
            lemma_block_exits(tried.state, default@, functions, branch);
        },
        Statement::Loop { body, continuing } => {
            lemma_block_exits(state, body@, functions, disruptor);
            let looped = state.process_block(body@, functions, disruptor);
            match looped.result {
                Ok((_, body_exit)) => {
                    lemma_block_exits(
                        looped.state,
                        continuing@,
                        functions,
                        first_of(disruptor, UniformityDisruptor::from_exit(body_exit)),
                    );
                },
                Err(_) => {},
            }
        },
        _ => {},
    }
}

/// Where the analysis of a block succeeds, the exits that it yields are
/// those of its statements at any depth.
pub proof fn lemma_block_exits(
    state: FunctionInfoView,
    statements: Seq<Statement>,
    functions: Seq<FunctionInfoView>,
    disruptor: Option<UniformityDisruptor>,
)
    ensures
        match state.process_block(statements, functions, disruptor).result {
            Ok((_, exit)) => exit == block_exits(statements, functions),
            Err(_) => true,
        },
    decreases statements,
{
    if statements.len() > 0 {
        lemma_block_exits(state, statements.drop_last(), functions, disruptor);
        let before = state.process_block(statements.drop_last(), functions, disruptor);
        lemma_statement_exits(before.state, statements.last(), functions, before.disruptor);
    }
}

/// Where the analysis of the cases of a switch succeeds, the exits that
/// it yields are those of the statements of the cases at any depth.
pub proof fn lemma_cases_exits(
    state: FunctionInfoView,
    cases: Seq<SwitchCase>,
    functions: Seq<FunctionInfoView>,
    disruptor: Option<UniformityDisruptor>,
    branch: Option<UniformityDisruptor>,
)
    ensures
        match state.process_cases(cases, functions, disruptor, branch).result {
            Ok((_, exit)) => exit == cases_exits(cases, functions),
            Err(_) => true,
        },
    decreases cases,
{
    if cases.len() > 0 {
        lemma_cases_exits(state, cases.drop_last(), functions, disruptor, branch);
        let before = state.process_cases(cases.drop_last(), functions, disruptor, branch);
        lemma_block_exits(before.state, cases.last().body@, functions, before.disruptor);
    }
}

/// A block that is entered in non-uniform control flow and analysed with
/// success holds no operation that requires uniform control flow at its
/// own level: the uniformity that it yields requires nothing, and what
/// follows it stays under the disruptor that it was entered under.
pub proof fn lemma_disrupted_block(
    state: FunctionInfoView,
    statements: Seq<Statement>,
    functions: Seq<FunctionInfoView>,
    cause: UniformityDisruptor,
)
    ensures
        ({
            let walk = state.process_block(statements, functions, Some(cause));
            match walk.result {
                Ok((uniformity, _)) => uniformity.require_uniform is None && walk.disruptor
                    == Some(cause),
                Err(_) => true,
            }
        }),
    decreases statements.len(),
{
    if statements.len() > 0 {
        lemma_disrupted_block(state, statements.drop_last(), functions, cause);
    }
}

/// A record that admits the terms of a block admits the terms of each of
/// its prefixes.
pub proof fn lemma_block_prefix(
    state: FunctionInfoView,
    statements: Seq<Statement>,
    count: int,
    functions: Seq<FunctionInfoView>,
)
    requires
        state.admits(block_terms(statements), functions),
        0 <= count <= statements.len(),
    ensures
        state.admits(block_terms(statements.take(count)), functions),
    decreases statements.len() - count,
{
    if count == statements.len() {
        assert(statements.take(count) =~= statements);
    } else {
        lemma_block_prefix(state, statements, count + 1, functions);
        assert(statements.take(count + 1).drop_last() =~= statements.take(count));
        lemma_parts(
            state,
            block_terms(statements.take(count)),
            statement_terms(statements[count]),
            functions,
        );
    }
}

/// Once the analysis of a prefix of a block has failed, the analysis of
/// the whole block is that failure.
pub proof fn lemma_block_failure(
    state: FunctionInfoView,
    statements: Seq<Statement>,
    count: int,
    functions: Seq<FunctionInfoView>,
    disruptor: Option<UniformityDisruptor>,
)
    requires
        0 <= count <= statements.len(),
        state.process_block(statements.take(count), functions, disruptor).result is Err,
    ensures
        state.process_block(statements, functions, disruptor) == state.process_block(
            statements.take(count),
            functions,
            disruptor,
        ),
    decreases statements.len() - count,
{
    if count == statements.len() {
        assert(statements.take(count) =~= statements);
    } else {
        assert(statements.take(count + 1).drop_last() =~= statements.take(count));
        lemma_block_failure(state, statements, count + 1, functions, disruptor);
    }
}

/// A record that admits the terms of the cases of a switch admits the
/// terms of each prefix of the cases.
pub proof fn lemma_cases_prefix(
    state: FunctionInfoView,
    cases: Seq<SwitchCase>,
    count: int,
    functions: Seq<FunctionInfoView>,
)
    requires
        state.admits(cases_terms(cases), functions),
        0 <= count <= cases.len(),
    ensures
        state.admits(cases_terms(cases.take(count)), functions),
    decreases cases.len() - count,
{
    if count == cases.len() {
        assert(cases.take(count) =~= cases);
    } else {
        lemma_cases_prefix(state, cases, count + 1, functions);
        assert(cases.take(count + 1).drop_last() =~= cases.take(count));
        lemma_parts(
            state,
            cases_terms(cases.take(count)),
            block_terms(cases[count].body@),
            functions,
        );
    }
}

/// Once the analysis of a prefix of the cases of a switch has failed, the
/// analysis of all the cases is that failure.
pub proof fn lemma_cases_failure(
    state: FunctionInfoView,
    cases: Seq<SwitchCase>,
    count: int,
    functions: Seq<FunctionInfoView>,
    disruptor: Option<UniformityDisruptor>,
    branch: Option<UniformityDisruptor>,
)
    requires
        0 <= count <= cases.len(),
        state.process_cases(cases.take(count), functions, disruptor, branch).result is Err,
    ensures
        state.process_cases(cases, functions, disruptor, branch) == state.process_cases(
            cases.take(count),
            functions,
            disruptor,
            branch,
        ),
    decreases cases.len() - count,
{
    if count == cases.len() {
        assert(cases.take(count) =~= cases);
    } else {
        assert(cases.take(count + 1).drop_last() =~= cases.take(count));
        lemma_cases_failure(state, cases, count + 1, functions, disruptor, branch);
    }
}

impl FunctionInfo {
    /// Computes the control flags on the block (as a sequence of
    /// statements), and returns them. The parent control flow is uniform
    /// unless a `disruptor` is given.
    ///
    /// Returns a `NonUniformControlFlow` error if any of the expressions in
    /// the block require uniformity, but the current flow is non-uniform.
    pub fn process_block(
        &mut self,
        statements: &[Statement],
        other_functions: &[FunctionInfo],
        disruptor: Option<UniformityDisruptor>,
    ) -> (result: Result<(Uniformity, ExitFlags), AnalysisError>)
        requires
            old(self).sampling_set.wf(),
            old(self)@.admits(block_terms(statements@), views(other_functions@)),
        ensures
            final(self).wf(),
            final(self)@ == old(self)@.process_block(
                statements@,
                views(other_functions@),
                disruptor,
            ).state,
            result == old(self)@.process_block(
                statements@,
                views(other_functions@),
                disruptor,
            ).result,
        decreases statements@,
    {
        let ghost start = self@;
        let ghost functions = views(other_functions@);
        let mut cause = disruptor;
        let mut block_uniformity = Uniformity::default();
        let mut block_exit = ExitFlags::empty();
        let mut i: usize = 0;
        proof {
            assert(statements@.take(0) =~= Seq::<Statement>::empty());
            lemma_admits_wf(start, block_terms(statements@), functions);
        }
        while i < statements.len()
            invariant
                i <= statements@.len(),
                self.wf(),
                start == old(self)@,
                functions == views(other_functions@),
                start.admits(block_terms(statements@), functions),
                start.process_block(statements@.take(i as int), functions, disruptor) == (Walk {
                    state: self@,
                    disruptor: cause,
                    result: Ok((block_uniformity, block_exit)),
                }),
            decreases statements@.len() - i,
        {
            proof {
                assert(statements@.take(i + 1).drop_last() =~= statements@.take(i as int));
                lemma_block_prefix(start, statements@, i + 1, functions);
                lemma_block_prefix(start, statements@, i as int, functions);
                lemma_parts(
                    start,
                    block_terms(statements@.take(i as int)),
                    statement_terms(statements@[i as int]),
                    functions,
                );
                lemma_block_walk(start, statements@.take(i as int), functions, disruptor);
            }
            let (cur_uniformity, cur_exit) = match self.process_statement(
                &statements[i],
                other_functions,
                cause,
            ) {
                Ok(flags) => flags,
                Err(error) => {
                    proof {
                        lemma_block_failure(start, statements@, i + 1, functions, disruptor);
                    }
                    return Err(error);
                },
            };
            if let (Some(expr), Some(cause)) = (cur_uniformity.require_uniform, cause) {
                proof {
                    lemma_block_failure(start, statements@, i + 1, functions, disruptor);
                }
                return Err(AnalysisError::NonUniformControlFlow(expr, cause));
            }
            cause = first_present(cause, UniformityDisruptor::from_exit(cur_exit));
            block_uniformity = block_uniformity | cur_uniformity;
            block_exit = block_exit | cur_exit;
            i = i + 1;
        }
        proof {
            assert(statements@.take(i as int) =~= statements@);
        }
        Ok((block_uniformity, block_exit))
    }

    /// Computes the control flags of the cases of a switch, and returns
    /// them. The first case is entered under `disruptor`; after a case
    /// that does not fall through, the next one is entered under
    /// `branch_disruptor`.
    fn process_cases(
        &mut self,
        cases: &[SwitchCase],
        other_functions: &[FunctionInfo],
        disruptor: Option<UniformityDisruptor>,
        branch_disruptor: Option<UniformityDisruptor>,
    ) -> (result: Result<(Uniformity, ExitFlags), AnalysisError>)
        requires
            old(self).sampling_set.wf(),
            old(self)@.admits(cases_terms(cases@), views(other_functions@)),
        ensures
            final(self).wf(),
            final(self)@ == old(self)@.process_cases(
                cases@,
                views(other_functions@),
                disruptor,
                branch_disruptor,
            ).state,
            result == old(self)@.process_cases(
                cases@,
                views(other_functions@),
                disruptor,
                branch_disruptor,
            ).result,
        decreases cases@,
    {
        let ghost start = self@;
        let ghost functions = views(other_functions@);
        let mut case_disruptor = disruptor;
        let mut uniformity = Uniformity::default();
        let mut exit = ExitFlags::empty();
        let mut i: usize = 0;
        proof {
            assert(cases@.take(0) =~= Seq::<SwitchCase>::empty());
            lemma_admits_wf(start, cases_terms(cases@), functions);
        }
        while i < cases.len()
            invariant
                i <= cases@.len(),
                self.wf(),
                start == old(self)@,
                functions == views(other_functions@),
                start.admits(cases_terms(cases@), functions),
                start.process_cases(cases@.take(i as int), functions, disruptor, branch_disruptor) == (
                Walk { state: self@, disruptor: case_disruptor, result: Ok((uniformity, exit)) }),
            decreases cases@.len() - i,
        {
            proof {
                assert(cases@.take(i + 1).drop_last() =~= cases@.take(i as int));
                lemma_cases_prefix(start, cases@, i + 1, functions);
                lemma_cases_prefix(start, cases@, i as int, functions);
                lemma_parts(
                    start,
                    cases_terms(cases@.take(i as int)),
                    block_terms(cases@[i as int].body@),
                    functions,
                );
                lemma_cases_walk(start, cases@.take(i as int), functions, disruptor, branch_disruptor);
            }
            let case = &cases[i];
            let (case_uniformity, case_exit) = match self.process_block(
                case.body.as_slice(),
                other_functions,
                case_disruptor,
            ) {
                Ok(flags) => flags,
                Err(error) => {
                    proof {
                        lemma_cases_failure(
                            start,
                            cases@,
                            i + 1,
                            functions,
                            disruptor,
                            branch_disruptor,
                        );
                    }
                    return Err(error);
                },
            };
            uniformity = uniformity | case_uniformity;
            exit = exit | case_exit;
            case_disruptor = if case.fall_through {
                first_present(case_disruptor, UniformityDisruptor::from_exit(case_exit))
            } else {
                branch_disruptor
            };
            i = i + 1;
        }
        proof {
            assert(cases@.take(i as int) =~= cases@);
        }
        Ok((uniformity, exit))
    }

    /// Computes the control flags of one statement, and returns them.
    fn process_statement(
        &mut self,
        stmt: &Statement,
        other_functions: &[FunctionInfo],
        disruptor: Option<UniformityDisruptor>,
    ) -> (result: Result<(Uniformity, ExitFlags), AnalysisError>)
        requires
            old(self).sampling_set.wf(),
            old(self)@.admits(statement_terms(*stmt), views(other_functions@)),
        ensures
            final(self).wf(),
            final(self)@ == old(self)@.process_statement(
                *stmt,
                views(other_functions@),
                disruptor,
            ).state,
            result == old(self)@.process_statement(
                *stmt,
                views(other_functions@),
                disruptor,
            ).result,
        decreases *stmt,
    {
        broadcast use lemma_apply_terms_empty, lemma_apply_terms_push, lemma_admits_push;

        let ghost start = self@;
        let ghost functions = views(other_functions@);
        let ghost trace = Trace::begin(start, functions);
        let none = Uniformity::default();
        proof {
            lemma_admits_wf(start, statement_terms(*stmt), functions);
        }
        match stmt {
            Statement::Emit(_) | Statement::Break | Statement::Continue => Ok(
                (none, ExitFlags::empty()),
            ),
            Statement::Kill => Ok((none, ExitFlags::may_kill())),
            Statement::Block(block) => self.process_block(
                block.as_slice(),
                other_functions,
                disruptor,
            ),
            Statement::If { condition, accept, reject } => {
                proof {
                    let head_terms = seq![Term::read(*condition)];
                    lemma_parts(
                        start,
                        head_terms + block_terms(accept@),
                        block_terms(reject@),
                        functions,
                    );
                    lemma_parts(start, head_terms, block_terms(accept@), functions);
                }
                let condition_uniformity = self.read_term(none, *condition, Ghost(trace));
                if let (Some(expr), Some(cause)) = (
                    condition_uniformity.require_uniform,
                    disruptor,
                ) {
                    return Err(AnalysisError::NonUniformControlFlow(expr, cause));
                }
                let branch_disruptor = first_present(disruptor, condition_uniformity.disruptor());
                proof {
                    lemma_block_walk(self@, accept@, functions, branch_disruptor);
                }
                let (accept_uniformity, accept_exit) = match self.process_block(
                    accept.as_slice(),
                    other_functions,
                    branch_disruptor,
                ) {
                    Ok(flags) => flags,
                    Err(error) => {
                        return Err(error);
                    },
                };
                let (reject_uniformity, reject_exit) = match self.process_block(
                    reject.as_slice(),
                    other_functions,
                    branch_disruptor,
                ) {
                    Ok(flags) => flags,
                    Err(error) => {
                        return Err(error);
                    },
                };
                Ok(
                    (
                        condition_uniformity | accept_uniformity | reject_uniformity,
                        accept_exit | reject_exit,
                    ),
                )
            },
            Statement::Switch { selector, cases, default } => {
                proof {
                    let head_terms = seq![Term::read(*selector)];
                    lemma_parts(
                        start,
                        head_terms + cases_terms(cases@),
                        block_terms(default@),
                        functions,
                    );
                    lemma_parts(start, head_terms, cases_terms(cases@), functions);
                }
                let selector_uniformity = self.read_term(none, *selector, Ghost(trace));
                let branch_disruptor = first_present(disruptor, selector_uniformity.disruptor());
                proof {
                    lemma_cases_walk(self@, cases@, functions, disruptor, branch_disruptor);
                }
                let (cases_uniformity, cases_exit) = match self.process_cases(
                    cases.as_slice(),
                    other_functions,
                    disruptor,
                    branch_disruptor,
                ) {
                    Ok(flags) => flags,
                    Err(error) => {
                        return Err(error);
                    },
                };
                let (default_uniformity, default_exit) = match self.process_block(
                    default.as_slice(),
                    other_functions,
                    branch_disruptor,
                ) {
                    Ok(flags) => flags,
                    Err(error) => {
                        return Err(error);
                    },
                };
                Ok(
                    (
                        selector_uniformity | cases_uniformity | default_uniformity,
                        cases_exit | default_exit,
                    ),
                )
            },
            Statement::Loop { body, continuing } => {
                proof {
                    lemma_parts(start, block_terms(body@), block_terms(continuing@), functions);
                    lemma_block_walk(start, body@, functions, disruptor);
                }
                let (body_uniformity, body_exit) = match self.process_block(
                    body.as_slice(),
                    other_functions,
                    disruptor,
                ) {
                    Ok(flags) => flags,
                    Err(error) => {
                        return Err(error);
                    },
                };
                let branch_disruptor = first_present(
                    disruptor,
                    UniformityDisruptor::from_exit(body_exit),
                );
                let (continuing_uniformity, continuing_exit) = match self.process_block(
                    continuing.as_slice(),
                    other_functions,
                    branch_disruptor,
                ) {
                    Ok(flags) => flags,
                    Err(error) => {
                        return Err(error);
                    },
                };
                Ok((body_uniformity | continuing_uniformity, body_exit | continuing_exit))
            },
            Statement::Return { value } => {
                let uniformity = self.optional_term(none, *value, Ghost(trace));
                Ok((uniformity, ExitFlags::may_return()))
            },
            Statement::Store { pointer, value } => {
                let flags = self.ref_term(none, *pointer, GlobalUse::write(), Ghost(trace));
                let uniformity = self.read_term(
                    flags,
                    *value,
                    Ghost(
                        trace.plus(Term::Ref { handle: *pointer, global_use: GlobalUse::write() }),
                    ),
                );
                Ok((uniformity, ExitFlags::empty()))
            },
            Statement::ImageStore { image, coordinate, array_index, value } => {
                let ghost after_image = trace.plus(
                    Term::Ref { handle: *image, global_use: GlobalUse::write() },
                );
                let ghost after_coordinate = after_image.plus(Term::read(*coordinate));
                let flags = self.ref_term(none, *image, GlobalUse::write(), Ghost(trace));
                let flags = self.read_term(flags, *coordinate, Ghost(after_image));
                let flags = self.optional_term(flags, *array_index, Ghost(after_coordinate));
                let uniformity = self.read_term(
                    flags,
                    *value,
                    Ghost(after_coordinate.plus_optional(*array_index)),
                );
                Ok((uniformity, ExitFlags::empty()))
            },
            Statement::Call { function, arguments, result } => {
                let ghost after_call = trace.plus(Term::Call(*function));
                proof {
                    lemma_call_parts(start, *function, arguments@, *result, functions);
                }
                let info = &other_functions[function.index()];
                let flags = self.call_term(none, info, Ghost(*function), Ghost(trace));
                let flags = self.operand_terms(flags, arguments, Ghost(after_call));
                let uniformity = self.optional_term(
                    flags,
                    *result,
                    Ghost(after_call.plus_operands(arguments@)),
                );
                let exit = if info.may_kill {
                    ExitFlags::may_kill()
                } else {
                    ExitFlags::empty()
                };
                Ok((uniformity, exit))
            },
        }
    }
}

/// A record that admits the terms of a call statement admits them part
/// by part: the call, then the arguments, then the result.
proof fn lemma_call_parts(
    state: FunctionInfoView,
    function: Handle<Function>,
    arguments: Seq<Handle<Expression>>,
    result: Option<Handle<Expression>>,
    functions: Seq<FunctionInfoView>,
)
    requires
        state.admits(
            with_optional(seq![Term::Call(function)] + operand_terms(arguments), result),
            functions,
        ),
    ensures
        state.admits(seq![Term::Call(function)], functions),
        state.admits(seq![Term::Call(function)] + operand_terms(arguments), functions),
        function.index < functions.len(),
{
    let head = seq![Term::Call(function)];
    let inner = head + operand_terms(arguments);
    match result {
        Some(handle) => {
            lemma_admits_push(state, inner, Term::read(handle), functions);
        },
        None => {},
    }
    lemma_parts(state, head, operand_terms(arguments), functions);
    lemma_admits_wf(state, head, functions);
    assert(head[0].in_range(state.expressions.len(), functions.len()));
}

} // verus!
