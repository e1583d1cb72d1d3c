//! The migration registry: the ordered, append-only catalog of every schema
//! step ever published for the application, validated so that versions are
//! positive, unique and strictly increasing.

use crate::store::Statement;
use crate::store::StatementV;
use crate::store::Value;
use crate::store::ValueV;
use crate::store::cols_view;
use crate::store::script_view;
use vstd::prelude::*;
use vstd::string::StringExecFns;

verus! {

/// Whether a step advances or reverts schema state. Only `Up` steps are
/// ever run by this engine; `Down` is declarable but unused.
#[derive(Clone, Copy, Debug, PartialEq, Eq, Structural)]
pub enum Direction {
    Up,
    Down,
}

/// One schema change step: a version that is unique and strictly increasing
/// across the catalog, a purely diagnostic description, a direction, and
/// the script that is executed as one atomic unit.
#[derive(Clone, Debug, PartialEq)]
pub struct Step {
    pub version: i64,
    pub description: String,
    pub direction: Direction,
    pub script: Vec<Statement>,
}

/// Mathematical view of a [`Step`].
pub struct StepV {
    pub version: i64,
    pub description: Seq<char>,
    pub direction: Direction,
    pub script: Seq<StatementV>,
}

impl View for Step {
    type V = StepV;

    open spec fn view(&self) -> StepV {
        StepV {
            version: self.version,
            description: self.description@,
            direction: self.direction,
            script: script_view(self.script@),
        }
    }
}

/// View of a list of steps.
pub open spec fn steps_view(s: Seq<Step>) -> Seq<StepV> {
    s.map_values(|st: Step| st@)
}

/// The registry invariant: every version is positive, and versions strictly
/// increase along the catalog (so they are also unique).
pub open spec fn steps_wf(steps: Seq<StepV>) -> bool {
    &&& forall|i: int| 0 <= i < steps.len() ==> (#[trigger] steps[i]).version >= 1
    &&& forall|i: int, j: int|
        0 <= i < j < steps.len() ==> (#[trigger] steps[i]).version < (
        #[trigger] steps[j]).version
}

/// Strictly increasing adjacent versions make the whole catalog strictly
/// increasing.
proof fn lemma_version_lt(steps: Seq<StepV>, i: int, j: int)
    requires
        forall|k: int|
            #![trigger steps[k], steps[k + 1]]
            0 <= k < steps.len() - 1 ==> steps[k].version < steps[k + 1].version,
        0 <= i < j < steps.len(),
    ensures
        steps[i].version < steps[j].version,
    decreases j - i,
{
    assert(steps[j - 1].version < steps[j - 1 + 1].version);
    if j > i + 1 {
        lemma_version_lt(steps, i, j - 1);
    }
}

/// A catalog whose versions are positive and rise at every adjacent pair
/// satisfies the registry invariant.
proof fn lemma_adjacent_sorted(steps: Seq<StepV>)
    requires
        forall|k: int| 0 <= k < steps.len() ==> (#[trigger] steps[k]).version >= 1,
        forall|k: int|
            #![trigger steps[k], steps[k + 1]]
            0 <= k < steps.len() - 1 ==> steps[k].version < steps[k + 1].version,
    ensures
        steps_wf(steps),
{
    assert forall|a: int, b: int| 0 <= a < b < steps.len() implies (#[trigger] steps[a]).version < (
    #[trigger] steps[b]).version by {
        lemma_version_lt(steps, a, b);
    }
}

/// The catalog of all schema steps, in source order equal to version order.
/// A plain immutable value: the host builds it once and passes it in.
#[derive(Clone, Debug, PartialEq)]
pub struct Registry {
    pub steps: Vec<Step>,
}

impl View for Registry {
    type V = Seq<StepV>;

    open spec fn view(&self) -> Seq<StepV> {
        steps_view(self.steps@)
    }
}

impl Registry {
    /// The registry invariant; `new` is the validating constructor.
    pub open spec fn wf(&self) -> bool {
        steps_wf(self@)
    }

    /// Build a registry, rejecting any catalog whose versions are not
    /// positive and strictly increasing: publishing such a catalog would
    /// corrupt the upgrade path of every store that already recorded a
    /// later version.
    pub fn new(steps: Vec<Step>) -> (r: Option<Registry>)
        ensures
            match r {
                Some(reg) => reg@ == steps_view(steps@) && reg.wf(),
                None => !steps_wf(steps_view(steps@)),
            },
    {
        let ghost sv = steps_view(steps@);
        let mut i: usize = 0;
        while i < steps.len()
            invariant
                i <= steps.len(),
                sv == steps_view(steps@),
                sv.len() == steps@.len(),
                forall|k: int| 0 <= k < i ==> (#[trigger] sv[k]).version >= 1,
                forall|k: int|
                    #![trigger sv[k], sv[k + 1]]
                    0 <= k < i - 1 ==> sv[k].version < sv[k + 1].version,
            decreases steps.len() - i,
        {
            proof {
                assert(sv[i as int].version == steps@[i as int].version);
                if i > 0 {
                    assert(sv[i as int - 1].version == steps@[i as int - 1].version);
                }
            }
            if steps[i].version < 1 {
                proof {
                    assert(!steps_wf(sv));
                }
                return None;
            }
            if i > 0 && steps[i - 1].version >= steps[i].version {
                proof {
                    assert(!steps_wf(sv));
                }
                return None;
            }
            i += 1;
        }
        proof {
            lemma_adjacent_sorted(sv);
        }
        Some(Registry { steps })
    }

    /// The full ordered list of steps; pure, the same on every call.
    pub fn list_steps(&self) -> (r: &Vec<Step>)
        ensures
            steps_view(r@) == self@,
    {
        &self.steps
    }
}

/// The default text backfilled into the settings table's report prompt.
pub open spec fn report_prompt_default() -> Seq<char> {
    "你是一位技术周报编辑专家，擅长将开发者的Git提交记录转化为结构化、专业的工作周报。"@
}

/// The default text backfilled into the settings table's user prompt.
pub open spec fn user_prompt_default() -> Seq<char> {
    "请基于以下Git提交记录，生成一份专业的技术周报：
1. 按项目分类整理内容
2. 合并相似的提交内容
3. 使用技术术语准确描述工作内容
4. 突出重要的功能开发和问题修复
5. 保持简洁专业的语言风格"@
}

/// Step 1 of the published catalog: the weekly reports table.
pub open spec fn step_reports_spec() -> StepV {
    StepV {
        version: 1,
        description: "Create weekly reports table"@,
        direction: Direction::Up,
        script: seq![
            StatementV::CreateTableIfNotExists {
                name: "weekly_reports"@,
                cols: seq!["id"@, "title"@, "content"@, "created_time"@],
            },
        ],
    }
}

/// Step 2: the project configuration table.
pub open spec fn step_projects_spec() -> StepV {
    StepV {
        version: 2,
        description: "Create project config table"@,
        direction: Direction::Up,
        script: seq![
            StatementV::CreateTableIfNotExists {
                name: "project_configs"@,
                cols: seq![
                    "id"@,
                    "sort"@,
                    "name"@,
                    "path"@,
                    "create_time"@,
                    "update_time"@,
                    "branches"@,
                ],
            },
        ],
    }
}

/// Step 3: the settings table, seeded with one default row if empty.
pub open spec fn step_settings_spec() -> StepV {
    StepV {
        version: 3,
        description: "Create settings table"@,
        direction: Direction::Up,
        script: seq![
            StatementV::CreateTableIfNotExists {
                name: "settings"@,
                cols: seq!["authors"@, "api_key"@],
            },
            StatementV::InsertDefaultRowIfEmpty { table: "settings"@ },
        ],
    }
}

/// Step 4: the report prompt column on settings, back-filled only where
/// still null.
pub open spec fn step_report_prompt_spec() -> StepV {
    StepV {
        version: 4,
        description: "Add report_prompt field to settings table"@,
        direction: Direction::Up,
        script: seq![
            StatementV::AddColumn { table: "settings"@, col: "report_prompt"@ },
            StatementV::BackfillWhereNull {
                table: "settings"@,
                col: "report_prompt"@,
                value: ValueV::Text(report_prompt_default()),
            },
        ],
    }
}

/// Step 5: the user prompt column on settings, back-filled only where
/// still null.
pub open spec fn step_user_prompt_spec() -> StepV {
    StepV {
        version: 5,
        description: "Add user_prompt field to settings table"@,
        direction: Direction::Up,
        script: seq![
            StatementV::AddColumn { table: "settings"@, col: "user_prompt"@ },
            StatementV::BackfillWhereNull {
                table: "settings"@,
                col: "user_prompt"@,
                value: ValueV::Text(user_prompt_default()),
            },
        ],
    }
}

/// The full published catalog, in version order.
pub open spec fn reference_steps() -> Seq<StepV> {
    seq![
        step_reports_spec(),
        step_projects_spec(),
        step_settings_spec(),
        step_report_prompt_spec(),
        step_user_prompt_spec(),
    ]
}

/// Step 1 as a value.
fn step_reports() -> (r: Step)
    ensures
        r@ == step_reports_spec(),
{
    let mut cols: Vec<String> = Vec::new();
    cols.push(String::from_str("id"));
    cols.push(String::from_str("title"));
    cols.push(String::from_str("content"));
    cols.push(String::from_str("created_time"));
    proof {
        assert(cols_view(cols@) =~= seq!["id"@, "title"@, "content"@, "created_time"@]);
    }
    let mut script: Vec<Statement> = Vec::new();
    script.push(
        Statement::CreateTableIfNotExists { name: String::from_str("weekly_reports"), cols },
    );
    proof {
        assert(script_view(script@) =~= step_reports_spec().script);
    }
    Step {
        version: 1,
        description: String::from_str("Create weekly reports table"),
        direction: Direction::Up,
        script,
    }
}

/// Step 2 as a value.
fn step_projects() -> (r: Step)
    ensures
        r@ == step_projects_spec(),
{
    let mut cols: Vec<String> = Vec::new();
    cols.push(String::from_str("id"));
    cols.push(String::from_str("sort"));
    cols.push(String::from_str("name"));
    cols.push(String::from_str("path"));
    cols.push(String::from_str("create_time"));
    cols.push(String::from_str("update_time"));
    cols.push(String::from_str("branches"));
    proof {
        assert(cols_view(cols@) =~= seq![
            "id"@,
            "sort"@,
            "name"@,
            "path"@,
            "create_time"@,
            "update_time"@,
            "branches"@,
        ]);
    }
    let mut script: Vec<Statement> = Vec::new();
    script.push(
        Statement::CreateTableIfNotExists { name: String::from_str("project_configs"), cols },
    );
    proof {
        assert(script_view(script@) =~= step_projects_spec().script);
    }
    Step {
        version: 2,
        description: String::from_str("Create project config table"),
        direction: Direction::Up,
        script,
    }
}

/// Step 3 as a value.
fn step_settings() -> (r: Step)
    ensures
        r@ == step_settings_spec(),
{
    let mut cols: Vec<String> = Vec::new();
    cols.push(String::from_str("authors"));
    cols.push(String::from_str("api_key"));
    proof {
        assert(cols_view(cols@) =~= seq!["authors"@, "api_key"@]);
    }
    let mut script: Vec<Statement> = Vec::new();
    script.push(Statement::CreateTableIfNotExists { name: String::from_str("settings"), cols });
    script.push(Statement::InsertDefaultRowIfEmpty { table: String::from_str("settings") });
    proof {
        assert(script_view(script@) =~= step_settings_spec().script);
    }
    Step {
        version: 3,
        description: String::from_str("Create settings table"),
        direction: Direction::Up,
        script,
    }
}

/// Step 4 as a value.
fn step_report_prompt() -> (r: Step)
    ensures
        r@ == step_report_prompt_spec(),
{
    let mut script: Vec<Statement> = Vec::new();
    script.push(
        Statement::AddColumn {
            table: String::from_str("settings"),
            col: String::from_str("report_prompt"),
        },
    );
    script.push(
        Statement::BackfillWhereNull {
            table: String::from_str("settings"),
            col: String::from_str("report_prompt"),
            value: Value::Text(
                String::from_str(
                    "你是一位技术周报编辑专家，擅长将开发者的Git提交记录转化为结构化、专业的工作周报。",
                ),
            ),
        },
    );
    proof {
        assert(script_view(script@) =~= step_report_prompt_spec().script);
    }
    Step {
        version: 4,
        description: String::from_str("Add report_prompt field to settings table"),
        direction: Direction::Up,
        script,
    }
}

/// Step 5 as a value.
fn step_user_prompt() -> (r: Step)
    ensures
        r@ == step_user_prompt_spec(),
{
    let mut script: Vec<Statement> = Vec::new();
    script.push(
        Statement::AddColumn {
            table: String::from_str("settings"),
            col: String::from_str("user_prompt"),
        },
    );
    script.push(
        Statement::BackfillWhereNull {
            table: String::from_str("settings"),
            col: String::from_str("user_prompt"),
            value: Value::Text(
                String::from_str(
                    "请基于以下Git提交记录，生成一份专业的技术周报：
1. 按项目分类整理内容
2. 合并相似的提交内容
3. 使用技术术语准确描述工作内容
4. 突出重要的功能开发和问题修复
5. 保持简洁专业的语言风格",
                ),
            ),
        },
    );
    proof {
        assert(script_view(script@) =~= step_user_prompt_spec().script);
    }
    Step {
        version: 5,
        description: String::from_str("Add user_prompt field to settings table"),
        direction: Direction::Up,
        script,
    }
}

/// The published catalog of schema steps for this application, in version
/// order: report, project and settings tables, then the two prompt columns
/// with their back-filled defaults.
pub fn get_migrations() -> (r: Vec<Step>)
    ensures
        steps_view(r@) == reference_steps(),
        steps_wf(reference_steps()),
{
    let mut v: Vec<Step> = Vec::new();
    v.push(step_reports());
    v.push(step_projects());
    v.push(step_settings());
    v.push(step_report_prompt());
    v.push(step_user_prompt());
    proof {
        assert(steps_view(v@) =~= reference_steps());
        assert(steps_wf(reference_steps()));
    }
    v
}

} // verus!
