//! Roles: what an agent is allowed to do.
use vstd::prelude::*;
use crate::json;
use crate::json::{Json, JsonView};
use crate::table::Table;
use crate::text;

verus! {

/// What an agent is allowed to do, ordered from the narrowest role up.
///
/// A role is stored in the corpus sidecar, out of reach of any agent
/// configuration. It can be enforced only for agents without a host shell.
#[derive(Debug, Clone, Copy, PartialEq, Eq, PartialOrd, Ord, Structural)]
pub enum AgentRole {
    /// Reads and curates; never executes. The safe default for an agent whose
    /// intent is unknown.
    Researcher,
    /// Acts in the regtest arena: sandbox, oracles, faucet, findings. No open
    /// internet, so an execution turn cannot pull in untrusted text.
    Tester,
    /// Everything: research and penetration both.
    Super,
}

impl Default for AgentRole {
    fn default() -> (r: AgentRole)
        ensures
            r == AgentRole::Researcher,
    {
        AgentRole::Researcher
    }
}

/// The sandbox tool catalog, as permission keys spell it: `corpus_` and the
/// tool's bare name.
pub const CORPUS_TOOLS: [&'static str; 8] = [
    "corpus_target_info",
    "corpus_technique_save",
    "corpus_sandbox_exec",
    "corpus_oracle_run",
    "corpus_faucet",
    "corpus_wallet_fund",
    "corpus_attack_save",
    "corpus_finding_write",
];

/// Tools a researcher may call: read the target, and write working notes.
const RESEARCHER_TOOLS: [&'static str; 2] = ["corpus_target_info", "corpus_technique_save"];

/// The tool catalog.
pub open spec fn corpus_tools() -> Seq<Seq<char>> {
    seq![
        "corpus_target_info"@,
        "corpus_technique_save"@,
        "corpus_sandbox_exec"@,
        "corpus_oracle_run"@,
        "corpus_faucet"@,
        "corpus_wallet_fund"@,
        "corpus_attack_save"@,
        "corpus_finding_write"@,
    ]
}

/// The permission keys of the tools that a role may call.
pub open spec fn role_tools(role: AgentRole) -> Seq<Seq<char>> {
    match role {
        AgentRole::Researcher => seq!["corpus_target_info"@, "corpus_technique_save"@],
        _ => corpus_tools(),
    }
}

/// The permission key of a tool, given by its key or by its bare name.
pub open spec fn tool_key(tool: Seq<char>) -> Seq<char> {
    if "corpus_"@.is_prefix_of(tool) {
        tool
    } else {
        "corpus_"@ + tool
    }
}

/// A role may call a tool.
pub open spec fn may_call(role: AgentRole, tool: Seq<char>) -> bool {
    role_tools(role).contains(tool_key(tool))
}

/// A role comes with the open internet.
pub open spec fn reaches_web(role: AgentRole) -> bool {
    role != AgentRole::Tester
}

/// The place of a role in the order from the narrowest up.
pub open spec fn rank(role: AgentRole) -> int {
    match role {
        AgentRole::Researcher => 0,
        AgentRole::Tester => 1,
        AgentRole::Super => 2,
    }
}

/// The narrower of two roles.
pub open spec fn narrower(a: AgentRole, b: AgentRole) -> AgentRole {
    if rank(b) < rank(a) {
        b
    } else {
        a
    }
}

/// The name of a role.
pub open spec fn role_name(role: AgentRole) -> Seq<char> {
    match role {
        AgentRole::Researcher => "researcher"@,
        AgentRole::Tester => "tester"@,
        AgentRole::Super => "super"@,
    }
}

/// The role that a text names: its name, in any case of letters, with white
/// space round it.
pub open spec fn named_role(raw: Seq<char>) -> Option<AgentRole> {
    let name = text::ascii_lowered(text::trimmed(raw));
    if name == role_name(AgentRole::Researcher) {
        Some(AgentRole::Researcher)
    } else if name == role_name(AgentRole::Tester) {
        Some(AgentRole::Tester)
    } else if name == role_name(AgentRole::Super) {
        Some(AgentRole::Super)
    } else {
        None
    }
}

/// The starting prompts for new agents, one for each role.
#[derive(Debug, PartialEq, Eq)]
pub struct RolePrompts {
    pub researcher: String,
    pub tester: String,
    pub super_agent: String,
}

/// The starting prompt of a role.
pub open spec fn role_prompt(prompts: RolePrompts, role: AgentRole) -> Seq<char> {
    match role {
        AgentRole::Researcher => prompts.researcher@,
        AgentRole::Tester => prompts.tester@,
        AgentRole::Super => prompts.super_agent@,
    }
}

/// The description that a new agent of a role carries.
pub open spec fn role_description(role: AgentRole) -> Seq<char> {
    match role {
        AgentRole::Researcher => "Reads the corpus, the pinned source and the open internet; never executes. Produces cited hypotheses and technique cards."@,
        AgentRole::Tester => "Runs adversarial missions against sandboxed targets through the corpus tools (sandbox, oracles, faucet, gated findings). No open internet."@,
        AgentRole::Super => "Research and penetration both: the open internet and the sandbox in one agent."@,
    }
}

/// The line on what a role means.
pub open spec fn role_hint(role: AgentRole) -> Seq<char> {
    match role {
        AgentRole::Researcher => "reads and curates: target_info + technique_save, plus the open internet. No execution — enforced by the corpus server, not just by config."@,
        AgentRole::Tester => "acts in the regtest arena: sandbox, oracles, faucet, findings, attacks. No open internet, so an execution turn cannot pull in untrusted text."@,
        AgentRole::Super => "everything: research and penetration both."@,
    }
}

impl AgentRole {
    /// Every role, from the narrowest up.
    pub const ALL: [Self; 3] = [Self::Researcher, Self::Tester, Self::Super];

    /// The role that `raw` names.
    pub fn parse(raw: &str) -> (r: Option<AgentRole>)
        ensures
            r == named_role(raw@),
    {
        let name = text::to_ascii_lower(text::trim(raw).as_str());
        if text::same(name.as_str(), "researcher") {
            Some(AgentRole::Researcher)
        } else if text::same(name.as_str(), "tester") {
            Some(AgentRole::Tester)
        } else if text::same(name.as_str(), "super") {
            Some(AgentRole::Super)
        } else {
            None
        }
    }

    /// The role's name.
    pub fn as_str(self) -> (r: &'static str)
        ensures
            r@ == role_name(self),
    {
        match self {
            AgentRole::Researcher => "researcher",
            AgentRole::Tester => "tester",
            AgentRole::Super => "super",
        }
    }

    /// The starting prompt for a new agent of this role.
    pub fn default_prompt(self, prompts: &RolePrompts) -> (r: &str)
        ensures
            r@ == role_prompt(*prompts, self),
    {
        match self {
            AgentRole::Researcher => prompts.researcher.as_str(),
            AgentRole::Tester => prompts.tester.as_str(),
            AgentRole::Super => prompts.super_agent.as_str(),
        }
    }

    /// The description a new agent of this role carries.
    pub fn default_description(self) -> (r: &'static str)
        ensures
            r@ == role_description(self),
    {
        match self {
            AgentRole::Researcher => "Reads the corpus, the pinned source and the open internet; never executes. Produces cited hypotheses and technique cards.",
            AgentRole::Tester => "Runs adversarial missions against sandboxed targets through the corpus tools (sandbox, oracles, faucet, gated findings). No open internet.",
            AgentRole::Super => "Research and penetration both: the open internet and the sandbox in one agent.",
        }
    }

    /// One line on what the role means, for pickers and tooltips.
    pub fn hint(self) -> (r: &'static str)
        ensures
            r@ == role_hint(self),
    {
        match self {
            AgentRole::Researcher => "reads and curates: target_info + technique_save, plus the open internet. No execution — enforced by the corpus server, not just by config.",
            AgentRole::Tester => "acts in the regtest arena: sandbox, oracles, faucet, findings, attacks. No open internet, so an execution turn cannot pull in untrusted text.",
            AgentRole::Super => "everything: research and penetration both.",
        }
    }

    /// The permission keys of the tools this role may call.
    pub fn tools(self) -> (r: Vec<&'static str>)
        ensures
            r@.len() == role_tools(self).len(),
            forall|i: int| 0 <= i < r@.len() ==> (#[trigger] r@[i])@ == role_tools(self)[i],
    {
        let mut out: Vec<&'static str> = Vec::new();
        let mut i: usize = 0;
        match self {
            AgentRole::Researcher => {
                while i < 2
                    invariant
                        i <= 2,
                        out@.len() == i,
                        forall|j: int|
                            0 <= j < i ==> (#[trigger] out@[j])@ == role_tools(
                                AgentRole::Researcher,
                            )[j],
                    decreases 2 - i,
                {
                    out.push(RESEARCHER_TOOLS[i]);
                    i = i + 1;
                }
            },
            _ => {
                while i < 8
                    invariant
                        i <= 8,
                        out@.len() == i,
                        forall|j: int| 0 <= j < i ==> (#[trigger] out@[j])@ == corpus_tools()[j],
                    decreases 8 - i,
                {
                    out.push(CORPUS_TOOLS[i]);
                    i = i + 1;
                }
            },
        }
        out
    }

    /// May this role call `tool`, a bare name like `sandbox_exec` or a
    /// permission key like `corpus_sandbox_exec`?
    pub fn allows(self, tool: &str) -> (r: bool)
        ensures
            r == may_call(self, tool@),
    {
        let key = if text::starts_with(tool, "corpus_") {
            tool.to_owned()
        } else {
            text::cat2("corpus_", tool)
        };
        let tools = self.tools();
        let mut i: usize = 0;
        while i < tools.len()
            invariant
                i <= tools@.len(),
                tools@.len() == role_tools(self).len(),
                key@ == tool_key(tool@),
                forall|j: int|
                    0 <= j < tools@.len() ==> (#[trigger] tools@[j])@ == role_tools(self)[j],
                forall|j: int| 0 <= j < i ==> role_tools(self)[j] != key@,
            decreases tools@.len() - i,
        {
            if text::same(tools[i], key.as_str()) {
                assert(role_tools(self)[i as int] == key@);
                return true;
            }
            i = i + 1;
        }
        false
    }

    /// Does the role come with open-internet access?
    pub fn grants_web(self) -> (r: bool)
        ensures
            r == reaches_web(self),
    {
        match self {
            AgentRole::Tester => false,
            _ => true,
        }
    }

    /// Would a host shell make this role's tool ceiling a fiction? True of
    /// any role that may not call every tool: a shell can forge the identity
    /// that the ceiling is enforced by.
    pub fn shell_would_defeat_gate(self) -> (r: bool)
        ensures
            r == (role_tools(self).len() < corpus_tools().len()),
    {
        self.tools().len() < 8
    }

    /// The narrower of this role and `other`.
    pub fn narrow(self, other: AgentRole) -> (r: AgentRole)
        ensures
            r == narrower(self, other),
    {
        match (self, other) {
            (AgentRole::Researcher, _) => self,
            (AgentRole::Tester, AgentRole::Researcher) => other,
            (AgentRole::Tester, _) => self,
            (AgentRole::Super, _) => other,
        }
    }
}

// ---------------------------------------------------------------------
// Inference
// ---------------------------------------------------------------------

/// A permission block grants a key: it is absent, or neither denied nor asked
/// for.
pub open spec fn grants(perm: Map<Seq<char>, JsonView>, key: Seq<char>) -> bool {
    json::entry_text(perm, key) != Some("deny"@) && json::entry_text(perm, key) != Some("ask"@)
}

/// A role covers everything that a permission block grants.
pub open spec fn covers(role: AgentRole, perm: Map<Seq<char>, JsonView>) -> bool {
    &&& forall|i: int|
        0 <= i < 8 && grants(perm, #[trigger] corpus_tools()[i]) ==> may_call(
            role,
            corpus_tools()[i],
        )
    &&& (grants(perm, "webfetch"@) || grants(perm, "websearch"@)) ==> reaches_web(role)
}

/// The role that an agent entry already operates under: the narrowest that
/// covers what its permission block grants. No block at all grants
/// everything.
pub open spec fn inferred_role(cfg: Map<Seq<char>, JsonView>) -> AgentRole {
    match json::entry_fields(cfg, "permission"@) {
        None => AgentRole::Super,
        Some(perm) => if covers(AgentRole::Researcher, perm) {
            AgentRole::Researcher
        } else if covers(AgentRole::Tester, perm) {
            AgentRole::Tester
        } else {
            AgentRole::Super
        },
    }
}

/// Does the permission block grant `key`?
fn granted(perm: &Table<Json>, key: &str) -> (r: bool)
    ensures
        r == grants(json::fields(*perm), key@),
{
    match json::field_text(perm, key) {
        Some(action) => !text::same(action, "deny") && !text::same(action, "ask"),
        None => true,
    }
}

/// Does `role` cover everything the permission block grants?
fn role_covers(role: AgentRole, perm: &Table<Json>) -> (r: bool)
    ensures
        r == covers(role, json::fields(*perm)),
{
    let mut i: usize = 0;
    while i < 8
        invariant
            i <= 8,
            forall|j: int|
                0 <= j < i && grants(json::fields(*perm), #[trigger] corpus_tools()[j]) ==> may_call(
                    role,
                    corpus_tools()[j],
                ),
        decreases 8 - i,
    {
        assert(CORPUS_TOOLS@[i as int]@ == corpus_tools()[i as int]);
        if granted(perm, CORPUS_TOOLS[i]) && !role.allows(CORPUS_TOOLS[i]) {
            return false;
        }
        i = i + 1;
    }
    !(granted(perm, "webfetch") || granted(perm, "websearch")) || role.grants_web()
}

/// The role that an existing agent entry is already operating under, read off
/// what its permission block grants: the narrowest role that still covers it,
/// so that nothing loses a capability it had. An absent key is allowed, and
/// an entry with no permission block is allowed everything.
pub fn infer_role(cfg: &Table<Json>) -> (r: AgentRole)
    ensures
        r == inferred_role(json::fields(*cfg)),
{
    match json::field_object(cfg, "permission") {
        None => AgentRole::Super,
        Some(perm) => if role_covers(AgentRole::Researcher, perm) {
            AgentRole::Researcher
        } else if role_covers(AgentRole::Tester, perm) {
            AgentRole::Tester
        } else {
            AgentRole::Super
        },
    }
}

// ---------------------------------------------------------------------
// Laws
// ---------------------------------------------------------------------

/// Every tool key begins with `corpus_`.
proof fn lemma_tool_prefix(i: int)
    requires
        0 <= i < 8,
    ensures
        "corpus_"@.is_prefix_of(corpus_tools()[i]),
        tool_key(corpus_tools()[i]) == corpus_tools()[i],
{
    reveal_strlit("corpus_");
    reveal_strlit("corpus_target_info");
    reveal_strlit("corpus_technique_save");
    reveal_strlit("corpus_sandbox_exec");
    reveal_strlit("corpus_oracle_run");
    reveal_strlit("corpus_faucet");
    reveal_strlit("corpus_wallet_fund");
    reveal_strlit("corpus_attack_save");
    reveal_strlit("corpus_finding_write");
    let key = corpus_tools()[i];
    assert("corpus_"@ =~= key.subrange(0, 7));
}

/// Each wider role allows what the narrower one allows, and no role anything
/// outside the catalog; the tester and the unrestricted role hold the whole
/// catalog.
pub proof fn law_roles_widen(a: AgentRole, b: AgentRole, tool: Seq<char>)
    requires
        rank(a) <= rank(b),
    ensures
        may_call(a, tool) ==> may_call(b, tool) && corpus_tools().contains(tool_key(tool)),
        may_call(AgentRole::Tester, tool) <==> corpus_tools().contains(tool_key(tool)),
        may_call(AgentRole::Super, tool) <==> corpus_tools().contains(tool_key(tool)),
{
    let key = tool_key(tool);
    if a == AgentRole::Researcher && may_call(a, tool) {
        if key == role_tools(a)[0] {
            assert(corpus_tools()[0] == key);
        } else {
            assert(role_tools(a)[1] == key);
            assert(corpus_tools()[1] == key);
        }
    }
}

/// A tool outside the catalog is allowed to no role.
pub proof fn law_unknown_tool_refused(role: AgentRole, tool: Seq<char>)
    requires
        !corpus_tools().contains(tool_key(tool)),
    ensures
        !may_call(role, tool),
{
    if may_call(role, tool) {
        law_roles_widen(role, AgentRole::Super, tool);
    }
}

/// A tool is decided alike under its bare name and under its permission key.
pub proof fn law_bare_name_and_key_agree(role: AgentRole, bare: Seq<char>)
    requires
        !"corpus_"@.is_prefix_of(bare),
    ensures
        may_call(role, bare) == may_call(role, "corpus_"@ + bare),
{
    let key = "corpus_"@ + bare;
    assert("corpus_"@ =~= key.subrange(0, "corpus_"@.len() as int));
    assert("corpus_"@.is_prefix_of(key));
}

/// A text of lower-case letters is neither trimmed nor lowered.
proof fn lemma_plain_name(s: Seq<char>)
    requires
        s.len() > 0,
        forall|i: int| 0 <= i < s.len() ==> text::is_lower(#[trigger] s[i]),
    ensures
        text::ascii_lowered(text::trimmed(s)) == s,
{
    assert(text::is_lower(s[0]));
    assert(text::is_lower(s[s.len() - 1]));
    assert(text::trimmed_start(s) == s);
    assert(text::trimmed_end(s) == s);
    assert(text::ascii_lowered(s) =~= s) by {
        assert forall|i: int| 0 <= i < s.len() implies text::ascii_lowered(s)[i] == s[i] by {
            assert(text::is_lower(s[i]));
        }
    }
}

/// Reading a role's name gives the role back.
pub proof fn law_role_name_round_trip(role: AgentRole)
    ensures
        named_role(role_name(role)) == Some(role),
{
    reveal_strlit("researcher");
    reveal_strlit("tester");
    reveal_strlit("super");
    lemma_plain_name(role_name(role));
    assert("researcher"@.len() == 10 && "tester"@.len() == 6 && "super"@.len() == 5);
}

/// The unrestricted role covers everything.
proof fn lemma_widest_covers(perm: Map<Seq<char>, JsonView>)
    ensures
        covers(AgentRole::Super, perm),
{
    assert forall|i: int| 0 <= i < 8 && grants(perm, #[trigger] corpus_tools()[i]) implies may_call(
        AgentRole::Super,
        corpus_tools()[i],
    ) by {
        lemma_tool_prefix(i);
        assert(role_tools(AgentRole::Super)[i] == corpus_tools()[i]);
    }
}

/// The inferred role covers what a permission block grants, and no narrower
/// role does.
pub proof fn law_inferred_role_is_narrowest(
    cfg: Map<Seq<char>, JsonView>,
    perm: Map<Seq<char>, JsonView>,
    other: AgentRole,
)
    requires
        json::entry_fields(cfg, "permission"@) == Some(perm),
    ensures
        covers(inferred_role(cfg), perm),
        covers(other, perm) ==> rank(inferred_role(cfg)) <= rank(other),
{
    lemma_widest_covers(perm);
    match other {
        AgentRole::Researcher => {},
        AgentRole::Tester => {},
        AgentRole::Super => {},
    }
}

/// Silence is read as everything allowed: an entry without a permission block
/// infers the widest role.
pub proof fn law_silence_infers_the_widest(cfg: Map<Seq<char>, JsonView>)
    requires
        json::entry_fields(cfg, "permission"@) is None,
    ensures
        inferred_role(cfg) == AgentRole::Super,
{
}

} // verus!
