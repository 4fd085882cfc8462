//! Plain configuration records: which tool servers to reach and how, the
//! limits of the agent loop, and the settings the surrounding program needs
//! to hand around.

use vstd::prelude::*;
use vstd::string::*;

verus! {

/// Default cap on tool-call iterations within one conversation turn.
pub fn default_max_tool_iterations() -> (r: usize)
    ensures
        r == 10,
{
    10
}

/// Tool-server integration settings: whether it is on, where its server
/// list lives, and the iteration cap of the agent loop.
pub struct McpConfig {
    pub enabled: bool,
    pub path: String,
    pub max_tool_iterations: usize,
}

impl Default for McpConfig {
    /// Disabled, with no server-list path and the default iteration cap.
    fn default() -> (r: McpConfig)
        ensures
            !r.enabled,
            r.path@ == Seq::<char>::empty(),
            r.max_tool_iterations == 10,
    {
        McpConfig { enabled: false, path: String::new(), max_tool_iterations: 10 }
    }
}

/// Default partition count of the vector index.
pub fn default_lists() -> (r: usize)
    ensures
        r == 100,
{
    100
}

/// Vector-index settings of the database.
pub struct VectorIndexConfig {
    pub lists: usize,
}

impl Default for VectorIndexConfig {
    /// The default partition count.
    fn default() -> (r: VectorIndexConfig)
        ensures
            r.lists == 100,
    {
        VectorIndexConfig { lists: 100 }
    }
}

/// Connection settings of the dialogue database.
pub struct PostgresConfig {
    pub host: String,
    pub port: String,
    pub username: String,
    pub password: String,
    pub database: String,
    pub vector: VectorIndexConfig,
}

/// Database settings.
pub struct DbConfig {
    pub postgres: PostgresConfig,
}

/// Where text is turned into embedding vectors.
pub struct EmbeddingConfig {
    pub model: String,
    pub url: String,
    pub apikey: String,
}

/// Default persona line of the system prompt.
pub fn default_prompt() -> (r: String)
    ensures
        r@ == "你是一个可爱的虚拟女仆"@,
{
    "你是一个可爱的虚拟女仆".to_owned()
}

/// Default number of days after which expired dialogue rows are removed.
pub fn default_cleanup_days() -> (r: u64)
    ensures
        r == 30,
{
    30
}

/// Memory evaluation is on unless configured off.
pub fn default_evaluation_enabled() -> (r: bool)
    ensures
        r,
{
    true
}

/// Default instructions handed to the model that scores a dialogue's
/// long-term value.
pub fn default_evaluation_prompt() -> (r: String)
    ensures
        r@.len() > 0,
        r@ == spec_default_evaluation_prompt(),
{
    let text = "\n### Role\n你是一个RAG系统的记忆价值评估专家。你的任务是评估【用户与AI的对话】对未来交互的参考价值，并给出一个 0-100 的分数。\n\n### 评分标准\n\n#### 区间 A: [0-25] 噪音与废弃\n**定义**：完全没有回溯价值的对话。\n\n#### 区间 B: [26-60] 短期任务 (保留1周)\n**定义**：动作导向。用户想要解决一个具体问题，或使用某种工具。\n\n#### 区间 C: [61-85] 中期状态与软偏好 (保留1月)\n**定义**：状态导向 & 习惯导向。描述用户的近期状态、兴趣或可变的习惯。\n\n#### 区间 D: [86-100] 永久画像 (永久保存)\n**定义**：身份导向。极难改变的事实与强指令。\n\n### 输出格式 (JSON)\n请严格输出合法的 JSON 格式，不要输出 Markdown 代码块标记：\n{\n    \"score\": 75,\n    \"reason\": \"……\"\n}\n    ";
    proof {
        reveal_strlit(
            "\n### Role\n你是一个RAG系统的记忆价值评估专家。你的任务是评估【用户与AI的对话】对未来交互的参考价值，并给出一个 0-100 的分数。\n\n### 评分标准\n\n#### 区间 A: [0-25] 噪音与废弃\n**定义**：完全没有回溯价值的对话。\n\n#### 区间 B: [26-60] 短期任务 (保留1周)\n**定义**：动作导向。用户想要解决一个具体问题，或使用某种工具。\n\n#### 区间 C: [61-85] 中期状态与软偏好 (保留1月)\n**定义**：状态导向 & 习惯导向。描述用户的近期状态、兴趣或可变的习惯。\n\n#### 区间 D: [86-100] 永久画像 (永久保存)\n**定义**：身份导向。极难改变的事实与强指令。\n\n### 输出格式 (JSON)\n请严格输出合法的 JSON 格式，不要输出 Markdown 代码块标记：\n{\n    \"score\": 75,\n    \"reason\": \"……\"\n}\n    ",
        );
    }
    text.to_owned()
}

/// The characters of the default evaluation prompt.
pub open spec fn spec_default_evaluation_prompt() -> Seq<char> {
    "\n### Role\n你是一个RAG系统的记忆价值评估专家。你的任务是评估【用户与AI的对话】对未来交互的参考价值，并给出一个 0-100 的分数。\n\n### 评分标准\n\n#### 区间 A: [0-25] 噪音与废弃\n**定义**：完全没有回溯价值的对话。\n\n#### 区间 B: [26-60] 短期任务 (保留1周)\n**定义**：动作导向。用户想要解决一个具体问题，或使用某种工具。\n\n#### 区间 C: [61-85] 中期状态与软偏好 (保留1月)\n**定义**：状态导向 & 习惯导向。描述用户的近期状态、兴趣或可变的习惯。\n\n#### 区间 D: [86-100] 永久画像 (永久保存)\n**定义**：身份导向。极难改变的事实与强指令。\n\n### 输出格式 (JSON)\n请严格输出合法的 JSON 格式，不要输出 Markdown 代码块标记：\n{\n    \"score\": 75,\n    \"reason\": \"……\"\n}\n    "@
}

} // verus!
