//! The entry points of a database: what each of them asks of the mutation path.

use crate::error::NanoError;
use crate::json::{Json, JsonModel};
use crate::store::embed::{embed_outcome, plan_embed, requests_fit, EmbedFollowUp, EmbedOptions, EmbedPlan, EmbedPlanModel, NodeRows, NodeRowsModel, TypeEmbedSpecs};
use crate::store::schema_ir::{NodeTypeDefModel, SchemaIr, SchemaIrModel};
use crate::store::txlog::{CdcLogEntry, CdcModel};
use crate::store::vectors::{nested, replace_tables, replaced};
use crate::text::{cat2, views};
use vstd::prelude::*;

verus! {

/// How loaded rows join those that are there.
#[derive(Debug, Clone, Copy, PartialEq, Eq, Structural)]
pub enum LoadMode {
    Overwrite,
    Append,
    Merge,
}

/// Where the rows of a mutation come from.
#[derive(Debug)]
pub enum MutationSource {
    LoadString { mode: LoadMode, data_source: String },
    LoadFile { mode: LoadMode, data_path: String },
    /// The rows that are there, but for the node types that have new ones.
    PreparedStorage { replaced: Vec<NodeRows> },
}

/// The mathematical value of a `MutationSource`.
pub enum MutationSourceModel {
    LoadString { mode: LoadMode, data_source: Seq<char> },
    LoadFile { mode: LoadMode, data_path: Seq<char> },
    PreparedStorage { replaced: Seq<NodeRowsModel> },
}

impl View for MutationSource {
    type V = MutationSourceModel;

    open spec fn view(&self) -> MutationSourceModel {
        match *self {
            MutationSource::LoadString { mode, data_source } => MutationSourceModel::LoadString {
                mode,
                data_source: data_source@,
            },
            MutationSource::LoadFile { mode, data_path } => MutationSourceModel::LoadFile {
                mode,
                data_path: data_path@,
            },
            MutationSource::PreparedStorage {
                replaced,
            } => MutationSourceModel::PreparedStorage { replaced: views(replaced@) },
        }
    }
}

/// What the mutation path is asked to do.
#[derive(Debug)]
pub struct MutationPlan {
    pub source: MutationSource,
    pub op_summary: String,
    pub cdc_events: Vec<CdcLogEntry>,
}

/// The mathematical value of a `MutationPlan`.
pub struct MutationPlanModel {
    pub source: MutationSourceModel,
    pub op_summary: Seq<char>,
    pub cdc_events: Seq<CdcModel>,
}

impl View for MutationPlan {
    type V = MutationPlanModel;

    open spec fn view(&self) -> MutationPlanModel {
        MutationPlanModel {
            source: self.source@,
            op_summary: self.op_summary@,
            cdc_events: views(self.cdc_events@),
        }
    }
}

/// The name of a load mode.
pub open spec fn mode_label(mode: LoadMode) -> Seq<char> {
    match mode {
        LoadMode::Overwrite => "overwrite"@,
        LoadMode::Append => "append"@,
        LoadMode::Merge => "merge"@,
    }
}

impl LoadMode {
    /// The name of the mode.
    pub fn label(self) -> (r: &'static str)
        ensures
            r@ == mode_label(self),
    {
        match self {
            LoadMode::Overwrite => "overwrite",
            LoadMode::Append => "append",
            LoadMode::Merge => "merge",
        }
    }
}

/// Whether a node type has a key.
pub open spec fn has_key(n: NodeTypeDefModel) -> bool {
    exists|i: int| 0 <= i < n.properties.len() && (#[trigger] n.properties[i]).key
}

/// The mode of a load that names none: rows merge by key where the schema has a key, and
/// replace everything where it has none.
pub open spec fn default_mode(schema: SchemaIrModel) -> LoadMode {
    if exists|i: int| 0 <= i < schema.nodes.len() && has_key(#[trigger] schema.nodes[i]) {
        LoadMode::Merge
    } else {
        LoadMode::Overwrite
    }
}

/// A load of rows, summarized by its mode.
pub open spec fn load_plan(source: MutationSourceModel, mode: LoadMode) -> MutationPlanModel {
    MutationPlanModel {
        source,
        op_summary: "load:"@ + mode_label(mode),
        cdc_events: Seq::empty(),
    }
}

/// The commit of the vectors of an embedding run: the filled types have new rows.
pub open spec fn embed_plan(
    plan: EmbedPlanModel,
    tables: Seq<NodeRowsModel>,
    vectors: Seq<Seq<JsonModel>>,
) -> MutationPlanModel {
    MutationPlanModel {
        source: MutationSourceModel::PreparedStorage {
            replaced: replaced(
                plan.selected,
                tables,
                plan.requests,
                vectors,
                plan.selected.len() as int,
            ),
        },
        op_summary: "embed"@,
        cdc_events: Seq::empty(),
    }
}

/// The events of a mutation: those that its plan brings, else those of the transition.
pub open spec fn effective_events(planned: Seq<CdcModel>, transition: Seq<CdcModel>) -> Seq<CdcModel> {
    if planned.len() == 0 {
        transition
    } else {
        planned
    }
}

/// The events of a mutation: those that its plan brings, else those of the transition.
pub fn effective_cdc_events(planned: Vec<CdcLogEntry>, transition: Vec<CdcLogEntry>) -> (r: Vec<
    CdcLogEntry,
>)
    ensures
        views(r@) == effective_events(views(planned@), views(transition@)),
{
    if planned.len() == 0 {
        transition
    } else {
        planned
    }
}

/// A database that is open for writing.
#[derive(Debug)]
pub struct Database {
    pub path: String,
    pub schema_ir: SchemaIr,
}

fn string_plan(mode: LoadMode, data_source: &str, op_summary: String) -> (r: MutationPlan)
    ensures
        r@ == (MutationPlanModel {
            source: MutationSourceModel::LoadString { mode, data_source: data_source@ },
            op_summary: op_summary@,
            cdc_events: Seq::empty(),
        }),
{
    let cdc_events: Vec<CdcLogEntry> = Vec::new();
    assert(views(cdc_events@) =~= Seq::<CdcModel>::empty());
    MutationPlan {
        source: MutationSource::LoadString { mode, data_source: data_source.to_owned() },
        op_summary,
        cdc_events,
    }
}

impl Database {
    /// The mode of a load that names none.
    pub fn default_load_mode(&self) -> (r: LoadMode)
        ensures
            r == default_mode(self.schema_ir@),
    {
        let ghost nodes = self.schema_ir@.nodes;
        let mut i: usize = 0;
        while i < self.schema_ir.nodes.len()
            invariant
                i <= self.schema_ir.nodes@.len(),
                nodes == self.schema_ir@.nodes,
                nodes == views(self.schema_ir.nodes@),
                forall|k: int| 0 <= k < i ==> !has_key(#[trigger] nodes[k]),
            decreases self.schema_ir.nodes@.len() - i,
        {
            let node = &self.schema_ir.nodes[i];
            assert(nodes[i as int] == node@);
            let mut j: usize = 0;
            while j < node.properties.len()
                invariant
                    j <= node.properties@.len(),
                    i < self.schema_ir.nodes@.len(),
                    nodes == self.schema_ir@.nodes,
                    nodes.len() == self.schema_ir.nodes@.len(),
                    nodes[i as int] == node@,
                    forall|k: int| 0 <= k < j ==> !(#[trigger] node@.properties[k]).key,
                decreases node.properties@.len() - j,
            {
                assert(node@.properties[j as int] == node.properties@[j as int]@);
                if node.properties[j].key {
                    assert(has_key(nodes[i as int]));
                    return LoadMode::Merge;
                }
                j = j + 1;
            }
            i = i + 1;
        }
        LoadMode::Overwrite
    }

    /// Loads rows with the mode of a load that names none.
    pub fn load(&self, data_source: &str) -> (r: MutationPlan)
        ensures
            r@ == load_plan(
                MutationSourceModel::LoadString {
                    mode: default_mode(self.schema_ir@),
                    data_source: data_source@,
                },
                default_mode(self.schema_ir@),
            ),
    {
        self.load_with_mode(data_source, self.default_load_mode())
    }

    /// Loads rows.
    pub fn load_with_mode(&self, data_source: &str, mode: LoadMode) -> (r: MutationPlan)
        ensures
            r@ == load_plan(
                MutationSourceModel::LoadString { mode, data_source: data_source@ },
                mode,
            ),
    {
        string_plan(mode, data_source, cat2("load:", mode.label()))
    }

    /// Loads the rows of a file with the mode of a load that names none.
    pub fn load_file(&self, data_path: &str) -> (r: MutationPlan)
        ensures
            r@ == load_plan(
                MutationSourceModel::LoadFile {
                    mode: default_mode(self.schema_ir@),
                    data_path: data_path@,
                },
                default_mode(self.schema_ir@),
            ),
    {
        self.load_file_with_mode(data_path, self.default_load_mode())
    }

    /// Loads the rows of a file.
    pub fn load_file_with_mode(&self, data_path: &str, mode: LoadMode) -> (r: MutationPlan)
        ensures
            r@ == load_plan(MutationSourceModel::LoadFile { mode, data_path: data_path@ }, mode),
    {
        let cdc_events: Vec<CdcLogEntry> = Vec::new();
        assert(views(cdc_events@) =~= Seq::<CdcModel>::empty());
        MutationPlan {
            source: MutationSource::LoadFile { mode, data_path: data_path.to_owned() },
            op_summary: cat2("load:", mode.label()),
            cdc_events,
        }
    }

    /// Appends rows under a summary of the caller's.
    pub fn apply_append_mutation(&self, data_source: &str, op_summary: &str) -> (r: MutationPlan)
        ensures
            r@ == (MutationPlanModel {
                source: MutationSourceModel::LoadString {
                    mode: LoadMode::Append,
                    data_source: data_source@,
                },
                op_summary: op_summary@,
                cdc_events: Seq::empty(),
            }),
    {
        string_plan(LoadMode::Append, data_source, op_summary.to_owned())
    }

    /// Merges rows by key under a summary of the caller's.
    pub fn apply_merge_mutation(&self, data_source: &str, op_summary: &str) -> (r: MutationPlan)
        ensures
            r@ == (MutationPlanModel {
                source: MutationSourceModel::LoadString {
                    mode: LoadMode::Merge,
                    data_source: data_source@,
                },
                op_summary: op_summary@,
                cdc_events: Seq::empty(),
            }),
    {
        string_plan(LoadMode::Merge, data_source, op_summary.to_owned())
    }

    /// Plans the embedding of the vectors that the options select.
    pub fn embed(
        &self,
        options: &EmbedOptions,
        specs: &Vec<TypeEmbedSpecs>,
        tables: &Vec<NodeRows>,
    ) -> (r: Result<EmbedPlan, NanoError>)
        ensures
            match r {
                Ok(plan) => embed_outcome(
                    self.schema_ir@,
                    options@,
                    views(specs@),
                    views(tables@),
                ) == Ok::<_, Seq<char>>(plan@),
                Err(NanoError::Execution(m)) => embed_outcome(
                    self.schema_ir@,
                    options@,
                    views(specs@),
                    views(tables@),
                ) == Err::<<EmbedPlan as View>::V, Seq<char>>(m@),
                Err(_) => false,
            },
            r matches Ok(plan) ==> requests_fit(plan@.selected, views(tables@), plan@.requests),
    {
        plan_embed(&self.schema_ir, options, specs, tables)
    }

    /// The mutation that commits the vectors of a run, where its plan asks for a commit.
    /// `vectors` holds for each selected type the vectors of its requests, in order.
    pub fn embed_mutation(
        &self,
        plan: &EmbedPlan,
        tables: &Vec<NodeRows>,
        vectors: &Vec<Vec<Json>>,
    ) -> (r: Option<MutationPlan>)
        requires
            requests_fit(plan@.selected, views(tables@), plan@.requests),
        ensures
            match r {
                Some(m) => plan@.follow_up is Commit && m@ == embed_plan(
                    plan@,
                    views(tables@),
                    nested(vectors@),
                ),
                None => !(plan@.follow_up is Commit),
            },
    {
        match plan.follow_up {
            EmbedFollowUp::Commit(_) => {
                let cdc_events: Vec<CdcLogEntry> = Vec::new();
                assert(views(cdc_events@) =~= Seq::<CdcModel>::empty());
                Some(
                    MutationPlan {
                        source: MutationSource::PreparedStorage {
                            replaced: replace_tables(plan, tables, vectors),
                        },
                        op_summary: "embed".to_owned(),
                        cdc_events,
                    },
                )
            },
            _ => None,
        }
    }
}

} // verus!
