//! Migrations and schema differences as text.

use crate::cli::error::CliError;
use crate::cli::lines::{bool_str, bool_text, empty_line, pad, padded, push_line};
use crate::text::{cat2, cat5, opt_view, same, views};
use vstd::prelude::*;

verus! {

// ---------------------------------------------------------------------------
// Steps

/// What became of a migration.
#[derive(Debug, Clone, Copy, PartialEq, Eq, Structural)]
pub enum MigrationStatus {
    Applied,
    NeedsConfirmation,
    Blocked,
}

/// Whether a step can be taken.
#[derive(Debug, Clone, Copy, PartialEq, Eq, Structural)]
pub enum MigrationSafety {
    Safe,
    Confirm,
    Blocked,
}

/// What a step does.
#[derive(Debug, Clone, Copy, PartialEq, Eq, Structural)]
pub enum MigrationStep {
    AddNodeType,
    AddEdgeType,
    DropNodeType,
    DropEdgeType,
    RenameType,
    AddProperty,
    DropProperty,
    RenameProperty,
    AlterPropertyType,
    AlterPropertyNullability,
    AlterPropertyKey,
    AlterPropertyUnique,
    AlterPropertyIndex,
    AlterPropertyEnumValues,
    AlterMetadata,
    RebindEdgeEndpoints,
}

/// What a change of a schema does to those who use it.
#[derive(Debug, Clone, Copy, PartialEq, Eq, Structural)]
pub enum SchemaCompatibility {
    Additive,
    CompatibleWithConfirmation,
    Breaking,
    Blocked,
}

pub open spec fn status_text(s: MigrationStatus) -> Seq<char> {
    match s {
        MigrationStatus::Applied => "applied"@,
        MigrationStatus::NeedsConfirmation => "needs_confirmation"@,
        MigrationStatus::Blocked => "blocked"@,
    }
}

pub fn migration_status_label(status: MigrationStatus) -> (r: &'static str)
    ensures
        r@ == status_text(status),
{
    match status {
        MigrationStatus::Applied => "applied",
        MigrationStatus::NeedsConfirmation => "needs_confirmation",
        MigrationStatus::Blocked => "blocked",
    }
}

/// The code that a migration ends with.
pub fn migration_exit_code(status: MigrationStatus) -> (r: i32)
    ensures
        r == match status {
            MigrationStatus::Applied => 0i32,
            MigrationStatus::NeedsConfirmation => 2i32,
            MigrationStatus::Blocked => 3i32,
        },
{
    match status {
        MigrationStatus::Applied => 0,
        MigrationStatus::NeedsConfirmation => 2,
        MigrationStatus::Blocked => 3,
    }
}

pub open spec fn safety_text(s: MigrationSafety) -> Seq<char> {
    match s {
        MigrationSafety::Safe => "safe"@,
        MigrationSafety::Confirm => "confirm"@,
        MigrationSafety::Blocked => "blocked"@,
    }
}

pub fn migration_safety_label(safety: MigrationSafety) -> (r: &'static str)
    ensures
        r@ == safety_text(safety),
{
    match safety {
        MigrationSafety::Safe => "safe",
        MigrationSafety::Confirm => "confirm",
        MigrationSafety::Blocked => "blocked",
    }
}

pub open spec fn step_text(step: MigrationStep) -> Seq<char> {
    match step {
        MigrationStep::AddNodeType => "AddNodeType"@,
        MigrationStep::AddEdgeType => "AddEdgeType"@,
        MigrationStep::DropNodeType => "DropNodeType"@,
        MigrationStep::DropEdgeType => "DropEdgeType"@,
        MigrationStep::RenameType => "RenameType"@,
        MigrationStep::AddProperty => "AddProperty"@,
        MigrationStep::DropProperty => "DropProperty"@,
        MigrationStep::RenameProperty => "RenameProperty"@,
        MigrationStep::AlterPropertyType => "AlterPropertyType"@,
        MigrationStep::AlterPropertyNullability => "AlterPropertyNullability"@,
        MigrationStep::AlterPropertyKey => "AlterPropertyKey"@,
        MigrationStep::AlterPropertyUnique => "AlterPropertyUnique"@,
        MigrationStep::AlterPropertyIndex => "AlterPropertyIndex"@,
        MigrationStep::AlterPropertyEnumValues => "AlterPropertyEnumValues"@,
        MigrationStep::AlterMetadata => "AlterMetadata"@,
        MigrationStep::RebindEdgeEndpoints => "RebindEdgeEndpoints"@,
    }
}

pub fn migration_step_kind(step: MigrationStep) -> (r: &'static str)
    ensures
        r@ == step_text(step),
{
    match step {
        MigrationStep::AddNodeType => "AddNodeType",
        MigrationStep::AddEdgeType => "AddEdgeType",
        MigrationStep::DropNodeType => "DropNodeType",
        MigrationStep::DropEdgeType => "DropEdgeType",
        MigrationStep::RenameType => "RenameType",
        MigrationStep::AddProperty => "AddProperty",
        MigrationStep::DropProperty => "DropProperty",
        MigrationStep::RenameProperty => "RenameProperty",
        MigrationStep::AlterPropertyType => "AlterPropertyType",
        MigrationStep::AlterPropertyNullability => "AlterPropertyNullability",
        MigrationStep::AlterPropertyKey => "AlterPropertyKey",
        MigrationStep::AlterPropertyUnique => "AlterPropertyUnique",
        MigrationStep::AlterPropertyIndex => "AlterPropertyIndex",
        MigrationStep::AlterPropertyEnumValues => "AlterPropertyEnumValues",
        MigrationStep::AlterMetadata => "AlterMetadata",
        MigrationStep::RebindEdgeEndpoints => "RebindEdgeEndpoints",
    }
}

pub open spec fn compatibility_text(c: SchemaCompatibility) -> Seq<char> {
    match c {
        SchemaCompatibility::Additive => "additive"@,
        SchemaCompatibility::CompatibleWithConfirmation => "compatible_with_confirmation"@,
        SchemaCompatibility::Breaking => "breaking"@,
        SchemaCompatibility::Blocked => "blocked"@,
    }
}

pub fn schema_compatibility_label(value: SchemaCompatibility) -> (r: &'static str)
    ensures
        r@ == compatibility_text(value),
{
    match value {
        SchemaCompatibility::Additive => "additive",
        SchemaCompatibility::CompatibleWithConfirmation => "compatible_with_confirmation",
        SchemaCompatibility::Breaking => "breaking",
        SchemaCompatibility::Blocked => "blocked",
    }
}

// ---------------------------------------------------------------------------
// Lists

/// The lines, and behind them a heading and one line for each item, where there are any.
pub open spec fn with_items(acc: Seq<Seq<char>>, heading: Seq<char>, items: Seq<Seq<char>>) -> Seq<
    Seq<char>,
> {
    if items.len() == 0 {
        acc
    } else {
        with_bullets(acc.push(Seq::empty()).push(heading), items, 0)
    }
}

/// The lines, and behind them one for each item from `i` on.
pub open spec fn with_bullets(acc: Seq<Seq<char>>, items: Seq<Seq<char>>, i: int) -> Seq<Seq<char>>
    decreases items.len() - i,
{
    if i < 0 || i >= items.len() {
        acc
    } else {
        with_bullets(acc.push("- "@ + items[i]), items, i + 1)
    }
}

fn push_items(out: &mut Vec<String>, heading: &str, items: &Vec<String>)
    ensures
        views(final(out)@) == with_items(views(old(out)@), heading@, views(items@)),
{
    assert(views(items@).len() == items@.len());
    if items.len() == 0 {
        return;
    }
    push_line(out, empty_line());
    push_line(out, heading.to_owned());
    let ghost before = views(out@);
    let mut i: usize = 0;
    while i < items.len()
        invariant
            i <= items@.len(),
            with_bullets(before, views(items@), 0) == with_bullets(
                views(out@),
                views(items@),
                i as int,
            ),
        decreases items@.len() - i,
    {
        assert(views(items@)[i as int] == items@[i as int]@);
        push_line(out, cat2("- ", &items[i]));
        i = i + 1;
    }
}

// ---------------------------------------------------------------------------
// Plans

/// A step of a plan.
#[derive(Debug)]
pub struct PlannedStep {
    pub step: MigrationStep,
    pub safety: MigrationSafety,
    pub reason: String,
}

/// The mathematical value of a `PlannedStep`.
pub struct PlannedStepModel {
    pub step: MigrationStep,
    pub safety: MigrationSafety,
    pub reason: Seq<char>,
}

impl View for PlannedStep {
    type V = PlannedStepModel;

    open spec fn view(&self) -> PlannedStepModel {
        PlannedStepModel { step: self.step, safety: self.safety, reason: self.reason@ }
    }
}

/// How to get from one schema to another.
#[derive(Debug)]
pub struct MigrationPlan {
    pub db_path: String,
    pub old_schema_hash: String,
    pub new_schema_hash: String,
    pub steps: Vec<PlannedStep>,
    pub warnings: Vec<String>,
    pub blocked: Vec<String>,
}

/// The mathematical value of a `MigrationPlan`.
pub struct MigrationPlanModel {
    pub db_path: Seq<char>,
    pub old_schema_hash: Seq<char>,
    pub new_schema_hash: Seq<char>,
    pub steps: Seq<PlannedStepModel>,
    pub warnings: Seq<Seq<char>>,
    pub blocked: Seq<Seq<char>>,
}

impl View for MigrationPlan {
    type V = MigrationPlanModel;

    open spec fn view(&self) -> MigrationPlanModel {
        MigrationPlanModel {
            db_path: self.db_path@,
            old_schema_hash: self.old_schema_hash@,
            new_schema_hash: self.new_schema_hash@,
            steps: views(self.steps@),
            warnings: views(self.warnings@),
            blocked: views(self.blocked@),
        }
    }
}

/// Three columns of a table, the first two of them padded.
pub open spec fn columns(a: Seq<char>, wide_a: nat, b: Seq<char>, wide_b: nat, c: Seq<char>) -> Seq<
    char,
> {
    padded(a, wide_a) + " "@ + padded(b, wide_b) + " "@ + c
}

fn show_columns(a: &str, wide_a: usize, b: &str, wide_b: usize, c: &str) -> (r: String)
    ensures
        r@ == columns(a@, wide_a as nat, b@, wide_b as nat, c@),
{
    cat5(&pad(a, wide_a), " ", &pad(b, wide_b), " ", c)
}

/// The lines, and behind them one for each step from `i` on.
pub open spec fn with_steps(acc: Seq<Seq<char>>, steps: Seq<PlannedStepModel>, i: int) -> Seq<
    Seq<char>,
>
    decreases steps.len() - i,
{
    if i < 0 || i >= steps.len() {
        acc
    } else {
        with_steps(
            acc.push(
                columns(
                    safety_text(steps[i].safety),
                    10,
                    step_text(steps[i].step),
                    24,
                    steps[i].reason,
                ),
            ),
            steps,
            i + 1,
        )
    }
}

/// The lines of a plan.
pub open spec fn plan_lines(plan: MigrationPlanModel) -> Seq<Seq<char>> {
    let head = Seq::<Seq<char>>::empty().push("Migration Plan"@).push(
        "  DB: "@ + plan.db_path,
    ).push("  Old schema hash: "@ + plan.old_schema_hash).push(
        "  New schema hash: "@ + plan.new_schema_hash,
    ).push(Seq::empty());
    let body = if plan.steps.len() == 0 {
        head.push("No migration steps."@)
    } else {
        with_steps(head.push(columns("SAFETY"@, 10, "STEP"@, 24, "DETAIL"@)), plan.steps, 0)
    };
    with_items(with_items(body, "Warnings:"@, plan.warnings), "Blocked:"@, plan.blocked)
}

/// The lines of a plan.
pub fn print_migration_plan_table(plan: &MigrationPlan) -> (r: Vec<String>)
    ensures
        views(r@) == plan_lines(plan@),
{
    let mut out: Vec<String> = Vec::new();
    assert(views(out@) =~= Seq::<Seq<char>>::empty());
    push_line(&mut out, "Migration Plan".to_owned());
    push_line(&mut out, cat2("  DB: ", &plan.db_path));
    push_line(&mut out, cat2("  Old schema hash: ", &plan.old_schema_hash));
    push_line(&mut out, cat2("  New schema hash: ", &plan.new_schema_hash));
    push_line(&mut out, empty_line());
    assert(plan@.steps.len() == plan.steps@.len());
    if plan.steps.len() == 0 {
        push_line(&mut out, "No migration steps.".to_owned());
    } else {
        push_line(&mut out, show_columns("SAFETY", 10, "STEP", 24, "DETAIL"));
        let ghost before = views(out@);
        let mut i: usize = 0;
        while i < plan.steps.len()
            invariant
                i <= plan.steps@.len(),
                with_steps(before, plan@.steps, 0) == with_steps(views(out@), plan@.steps, i as int),
            decreases plan.steps@.len() - i,
        {
            let planned = &plan.steps[i];
            assert(plan@.steps[i as int] == planned@);
            let line = show_columns(
                migration_safety_label(planned.safety),
                10,
                migration_step_kind(planned.step),
                24,
                &planned.reason,
            );
            push_line(&mut out, line);
            i = i + 1;
        }
    }
    push_items(&mut out, "Warnings:", &plan.warnings);
    push_items(&mut out, "Blocked:", &plan.blocked);
    out
}

/// How a migration is shown.
#[derive(Debug)]
pub enum MigrationOutput {
    /// As JSON, with this status.
    Json(&'static str),
    /// As lines.
    Table(Vec<String>),
}

/// Shows a migration in a format.
pub fn render_migration_execution(
    status: MigrationStatus,
    plan: &MigrationPlan,
    format: &str,
) -> (r: Result<MigrationOutput, CliError>)
    ensures
        match r {
            Ok(MigrationOutput::Json(s)) => format@ == "json"@ && s@ == status_text(status),
            Ok(MigrationOutput::Table(v)) => format@ == "table"@ && format@ != "json"@ && views(v@)
                == plan_lines(plan@),
            Err(e) => format@ != "json"@ && format@ != "table"@ && e@ == "unknown format: "@
                + format@,
        },
{
    if same(format, "json") {
        Ok(MigrationOutput::Json(migration_status_label(status)))
    } else if same(format, "table") {
        Ok(MigrationOutput::Table(print_migration_plan_table(plan)))
    } else {
        Err(CliError::new(cat2("unknown format: ", format)))
    }
}

// ---------------------------------------------------------------------------
// Differences

/// A change of a schema.
#[derive(Debug)]
pub struct SchemaDiffStep {
    pub step: MigrationStep,
    pub classification: SchemaCompatibility,
    pub reason: String,
    pub remediation: Option<String>,
}

/// The mathematical value of a `SchemaDiffStep`.
pub struct SchemaDiffStepModel {
    pub step: MigrationStep,
    pub classification: SchemaCompatibility,
    pub reason: Seq<char>,
    pub remediation: Option<Seq<char>>,
}

impl View for SchemaDiffStep {
    type V = SchemaDiffStepModel;

    open spec fn view(&self) -> SchemaDiffStepModel {
        SchemaDiffStepModel {
            step: self.step,
            classification: self.classification,
            reason: self.reason@,
            remediation: opt_view(self.remediation),
        }
    }
}

/// The difference of two schemas.
#[derive(Debug)]
pub struct SchemaDiffReport {
    pub old_schema_hash: String,
    pub new_schema_hash: String,
    pub compatibility: SchemaCompatibility,
    pub has_breaking: bool,
    pub steps: Vec<SchemaDiffStep>,
    pub warnings: Vec<String>,
    pub blocked: Vec<String>,
}

/// The mathematical value of a `SchemaDiffReport`.
pub struct SchemaDiffModel {
    pub old_schema_hash: Seq<char>,
    pub new_schema_hash: Seq<char>,
    pub compatibility: SchemaCompatibility,
    pub has_breaking: bool,
    pub steps: Seq<SchemaDiffStepModel>,
    pub warnings: Seq<Seq<char>>,
    pub blocked: Seq<Seq<char>>,
}

impl View for SchemaDiffReport {
    type V = SchemaDiffModel;

    open spec fn view(&self) -> SchemaDiffModel {
        SchemaDiffModel {
            old_schema_hash: self.old_schema_hash@,
            new_schema_hash: self.new_schema_hash@,
            compatibility: self.compatibility,
            has_breaking: self.has_breaking,
            steps: views(self.steps@),
            warnings: views(self.warnings@),
            blocked: views(self.blocked@),
        }
    }
}

/// The lines, and behind them those of each change from `i` on.
pub open spec fn with_diff_steps(acc: Seq<Seq<char>>, steps: Seq<SchemaDiffStepModel>, i: int) -> Seq<
    Seq<char>,
>
    decreases steps.len() - i,
{
    if i < 0 || i >= steps.len() {
        acc
    } else {
        let line = acc.push(
            columns(
                compatibility_text(steps[i].classification),
                28,
                step_text(steps[i].step),
                30,
                steps[i].reason,
            ),
        );
        let told = match steps[i].remediation {
            Some(r) => line.push("  remediation: "@ + r),
            None => line,
        };
        with_diff_steps(told, steps, i + 1)
    }
}

/// The lines of a difference.
pub open spec fn diff_lines(report: SchemaDiffModel) -> Seq<Seq<char>> {
    let head = Seq::<Seq<char>>::empty().push("Schema Diff"@).push(
        "  Old schema hash: "@ + report.old_schema_hash,
    ).push("  New schema hash: "@ + report.new_schema_hash).push(
        "  Compatibility: "@ + compatibility_text(report.compatibility),
    ).push("  Has breaking: "@ + bool_text(report.has_breaking)).push(Seq::empty());
    let body = if report.steps.len() == 0 {
        head.push("No schema changes."@)
    } else {
        with_diff_steps(
            head.push(columns("CLASSIFICATION"@, 28, "STEP"@, 30, "DETAIL"@)),
            report.steps,
            0,
        )
    };
    with_items(with_items(body, "Warnings:"@, report.warnings), "Blocked:"@, report.blocked)
}

/// The lines of a difference.
pub fn print_schema_diff_table(report: &SchemaDiffReport) -> (r: Vec<String>)
    ensures
        views(r@) == diff_lines(report@),
{
    let mut out: Vec<String> = Vec::new();
    assert(views(out@) =~= Seq::<Seq<char>>::empty());
    push_line(&mut out, "Schema Diff".to_owned());
    push_line(&mut out, cat2("  Old schema hash: ", &report.old_schema_hash));
    push_line(&mut out, cat2("  New schema hash: ", &report.new_schema_hash));
    push_line(
        &mut out,
        cat2("  Compatibility: ", schema_compatibility_label(report.compatibility)),
    );
    push_line(&mut out, cat2("  Has breaking: ", bool_str(report.has_breaking)));
    push_line(&mut out, empty_line());
    assert(report@.steps.len() == report.steps@.len());
    if report.steps.len() == 0 {
        push_line(&mut out, "No schema changes.".to_owned());
    } else {
        push_line(&mut out, show_columns("CLASSIFICATION", 28, "STEP", 30, "DETAIL"));
        let ghost before = views(out@);
        let mut i: usize = 0;
        while i < report.steps.len()
            invariant
                i <= report.steps@.len(),
                with_diff_steps(before, report@.steps, 0) == with_diff_steps(
                    views(out@),
                    report@.steps,
                    i as int,
                ),
            decreases report.steps@.len() - i,
        {
            let step = &report.steps[i];
            assert(report@.steps[i as int] == step@);
            let line = show_columns(
                schema_compatibility_label(step.classification),
                28,
                migration_step_kind(step.step),
                30,
                &step.reason,
            );
            push_line(&mut out, line);
            if let Some(remediation) = &step.remediation {
                push_line(&mut out, cat2("  remediation: ", remediation));
            }
            i = i + 1;
        }
    }
    push_items(&mut out, "Warnings:", &report.warnings);
    push_items(&mut out, "Blocked:", &report.blocked);
    out
}

/// How a difference is shown.
#[derive(Debug)]
pub enum SchemaDiffOutput {
    /// As JSON.
    Json,
    /// As lines.
    Table(Vec<String>),
}

/// Shows a difference in a format.
pub fn render_schema_diff_report(report: &SchemaDiffReport, format: &str) -> (r: Result<
    SchemaDiffOutput,
    CliError,
>)
    ensures
        match r {
            Ok(SchemaDiffOutput::Json) => format@ == "json"@,
            Ok(SchemaDiffOutput::Table(v)) => format@ == "table"@ && format@ != "json"@ && views(v@)
                == diff_lines(report@),
            Err(e) => format@ != "json"@ && format@ != "table"@ && e@ == "unknown format: "@
                + format@ + " (supported: table, json)"@,
        },
{
    if same(format, "json") {
        Ok(SchemaDiffOutput::Json)
    } else if same(format, "table") {
        Ok(SchemaDiffOutput::Table(print_schema_diff_table(report)))
    } else {
        let mut m = cat2("unknown format: ", format);
        m.append(" (supported: table, json)");
        Err(CliError::new(m))
    }
}

} // verus!
