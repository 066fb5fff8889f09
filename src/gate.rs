//! The tool authorization gate: which (server, tool) pairs run without
//! asking, how a model-issued function name maps back to a pair, and what
//! the operator's answer does.

use vstd::prelude::*;
use crate::bridge::dotted;
use crate::text::{lowercase, lower_of, replace_char, replaced, trim_text, trim_of};

verus! {

/// Set of (server, tool) pairs that are always allowed.
pub struct AuthorizationGate {
    allowed: Vec<(String, String)>,
}

pub open spec fn pair_view(p: (String, String)) -> (Seq<char>, Seq<char>) {
    (p.0@, p.1@)
}

impl View for AuthorizationGate {
    type V = Set<(Seq<char>, Seq<char>)>;

    closed spec fn view(&self) -> Set<(Seq<char>, Seq<char>)> {
        Set::new(|p: (Seq<char>, Seq<char>)| exists|i: int| 0 <= i < self.allowed@.len() && pair_view(self.allowed@[i]) == p)
    }
}

/// Whether a call may go ahead without asking the operator.
#[derive(PartialEq, Eq, Structural, Clone, Copy, Debug)]
pub enum Authorization {
    Allowed,
    MustPrompt,
}

pub open spec fn authorization_of(allowed: Set<(Seq<char>, Seq<char>)>, server: Seq<char>, tool: Seq<char>) -> Authorization {
    if allowed.contains((server, tool)) { Authorization::Allowed } else { Authorization::MustPrompt }
}

impl AuthorizationGate {
    /// A gate with no pair allowed yet.
    pub fn new() -> (r: AuthorizationGate)
        ensures
            r@ == Set::<(Seq<char>, Seq<char>)>::empty(),
    {
        let r = AuthorizationGate { allowed: Vec::new() };
        assert(r@ =~= Set::<(Seq<char>, Seq<char>)>::empty());
        r
    }

    pub fn is_always_allowed(&self, server: &str, tool: &str) -> (r: bool)
        ensures
            r == self@.contains((server@, tool@)),
    {
        let wanted_server = server.to_string();
        let wanted_tool = tool.to_string();
        let mut i: usize = 0;
        while i < self.allowed.len()
            invariant
                i <= self.allowed@.len(),
                wanted_server@ == server@,
                wanted_tool@ == tool@,
                forall|j: int| 0 <= j < i ==> pair_view(#[trigger] self.allowed@[j]) != (server@, tool@),
            decreases self.allowed@.len() - i,
        {
            if self.allowed[i].0 == wanted_server && self.allowed[i].1 == wanted_tool {
                assert(pair_view(self.allowed@[i as int]) == (server@, tool@));
                return true;
            }
            i += 1;
        }
        false
    }

    /// Records that `server`/`tool` is always allowed from now on.
    pub fn add_always_allow(&mut self, server: &str, tool: &str)
        ensures
            final(self)@ == old(self)@.insert((server@, tool@)),
    {
        let ghost before = self.allowed@;
        self.allowed.push((server.to_string(), tool.to_string()));
        proof {
            assert(self.allowed@ == before.push((self.allowed@.last().0, self.allowed@.last().1)));
            assert forall|p: (Seq<char>, Seq<char>)| #[trigger] final(self)@.contains(p) == old(self)@.insert((server@, tool@)).contains(p) by {
                if final(self)@.contains(p) && p != (server@, tool@) {
                    let i = choose|i: int| 0 <= i < self.allowed@.len() && pair_view(self.allowed@[i]) == p;
                    assert(i < before.len());
                    assert(before[i] == self.allowed@[i]);
                }
                if old(self)@.contains(p) {
                    let i = choose|i: int| 0 <= i < before.len() && pair_view(before[i]) == p;
                    assert(self.allowed@[i] == before[i]);
                }
                if p == (server@, tool@) {
                    assert(pair_view(self.allowed@[before.len() as int]) == p);
                }
            }
            assert(final(self)@ =~= old(self)@.insert((server@, tool@)));
        }
    }

    /// Whether a call of `server`/`tool` runs without asking.
    pub fn authorize(&self, server: &str, tool: &str) -> (r: Authorization)
        ensures
            r == authorization_of(self@, server@, tool@),
    {
        if self.is_always_allowed(server, tool) {
            Authorization::Allowed
        } else {
            Authorization::MustPrompt
        }
    }
}

/// Why a tool call does not go ahead.
pub enum GateError {
    /// The qualified name is not of the form `server/tool`.
    InvalidName(String),
    /// The operator refused the call of this qualified name.
    Denied(String),
}

impl GateError {
    /// The qualified name the error is about.
    pub fn name(&self) -> (r: String)
        ensures
            r@ == match self {
                GateError::InvalidName(n) => n@,
                GateError::Denied(n) => n@,
            },
    {
        match self {
            GateError::InvalidName(n) => n.clone(),
            GateError::Denied(n) => n.clone(),
        }
    }

    /// Human-readable description, naming the tool.
    pub fn message(&self) -> (r: String)
        ensures
            r@ == match self {
                GateError::InvalidName(n) => "Invalid qualified tool name: "@ + n@,
                GateError::Denied(n) => "User denied execution of tool: "@ + n@,
            },
    {
        match self {
            GateError::InvalidName(n) => "Invalid qualified tool name: ".to_string().concat(n.as_str()),
            GateError::Denied(n) => "User denied execution of tool: ".to_string().concat(n.as_str()),
        }
    }
}

/// `i` is the position of the first `/` in `s`.
pub open spec fn is_first_slash(s: Seq<char>, i: int) -> bool {
    &&& 0 <= i < s.len()
    &&& s[i] == '/'
    &&& forall|j: int| 0 <= j < i ==> s[j] != '/'
}

/// `s` splits at its first `/` into two non-empty parts.
pub open spec fn well_formed_name(s: Seq<char>) -> bool {
    exists|i: int| is_first_slash(s, i) && 0 < i && i + 1 < s.len()
}

/// Splits a qualified name at its first `/` into server and tool; both
/// parts must be non-empty.
pub fn split_qualified_name(name: &str) -> (r: Result<(String, String), GateError>)
    ensures
        r is Ok <==> well_formed_name(name@),
        r matches Ok(p) ==> exists|i: int| is_first_slash(name@, i) && p.0@ == name@.subrange(0, i) && p.1@ == name@.subrange(i + 1, name@.len() as int),
        r matches Err(e) ==> e matches GateError::InvalidName(n) && n@ == name@,
{
    let n = name.unicode_len();
    let mut i: usize = 0;
    while i < n
        invariant
            n == name@.len(),
            i <= n,
            forall|j: int| 0 <= j < i ==> name@[j] != '/',
        decreases n - i,
    {
        if name.get_char(i) == '/' {
            assert(is_first_slash(name@, i as int));
            if i == 0 || i + 1 == n {
                assert forall|k: int| is_first_slash(name@, k) implies k == i by {
                    if k < i { } else if k > i { assert(name@[i as int] == '/'); }
                }
                return Err(GateError::InvalidName(name.to_string()));
            }
            let server = name.substring_char(0, i).to_string();
            let tool = name.substring_char(i + 1, n).to_string();
            return Ok((server, tool));
        }
        i += 1;
    }
    Err(GateError::InvalidName(name.to_string()))
}

/// The qualified name behind a model-issued function name: every `.` becomes `/`.
pub open spec fn qualified_name_of(function_name: Seq<char>) -> Seq<char> {
    replaced(function_name, '.', '/')
}

/// What the caller does with a function call that passed the name check.
pub enum GateStep {
    /// Run the tool without asking.
    Execute { server: String, tool: String },
    /// Ask the operator about the qualified name, then call [`apply_choice`].
    Ask { server: String, tool: String, qualified: String },
}

/// Recovers server and tool from a model-issued function name and decides
/// whether the operator has to be asked.
pub fn check_function_call(gate: &AuthorizationGate, function_name: &str) -> (r: Result<GateStep, GateError>)
    ensures
        ({
            let q = qualified_name_of(function_name@);
            &&& r is Ok <==> well_formed_name(q)
            &&& r matches Err(e) ==> e matches GateError::InvalidName(n) && n@ == q
            &&& r matches Ok(step) ==> exists|i: int| #![auto] is_first_slash(q, i) && {
                let server = q.subrange(0, i);
                let tool = q.subrange(i + 1, q.len() as int);
                match step {
                    GateStep::Execute { server: s, tool: t } => s@ == server && t@ == tool
                        && gate@.contains((server, tool)),
                    GateStep::Ask { server: s, tool: t, qualified } => s@ == server && t@ == tool
                        && qualified@ == q && !gate@.contains((server, tool)),
                }
            }
        }),
{
    let qualified = replace_char(function_name, '.', '/');
    let (server, tool) = match split_qualified_name(qualified.as_str()) {
        Ok(p) => p,
        Err(e) => return Err(e),
    };
    let ghost q = qualified@;
    let ghost i = choose|i: int| is_first_slash(q, i) && server@ == q.subrange(0, i) && tool@ == q.subrange(i + 1, q.len() as int);
    match gate.authorize(server.as_str(), tool.as_str()) {
        Authorization::Allowed => {
            let r = GateStep::Execute { server, tool };
            assert(is_first_slash(q, i));
            Ok(r)
        },
        Authorization::MustPrompt => {
            let r = GateStep::Ask { server, tool, qualified };
            assert(is_first_slash(q, i));
            Ok(r)
        },
    }
}

/// The operator's answer to a confirmation prompt.
#[derive(PartialEq, Eq, Structural, Clone, Copy, Debug)]
pub enum Choice {
    AllowOnce,
    Deny,
    AlwaysAllow,
}

/// The answer that a trimmed, lowercased reply gives. The empty reply takes
/// the default, allow once; a reply that is none of the known ones denies.
pub open spec fn choice_of(s: Seq<char>) -> Choice {
    if s == "a"@ || s == "always"@ {
        Choice::AlwaysAllow
    } else if s == ""@ || s == "y"@ || s == "yes"@ {
        Choice::AllowOnce
    } else {
        Choice::Deny
    }
}

/// The answer that a trimmed, lowercased reply gives.
pub fn choice_from_normalized(s: &String) -> (r: Choice)
    ensures
        r == choice_of(s@),
{
    if *s == "a".to_string() || *s == "always".to_string() {
        Choice::AlwaysAllow
    } else if *s == "".to_string() || *s == "y".to_string() || *s == "yes".to_string() {
        Choice::AllowOnce
    } else {
        Choice::Deny
    }
}

/// The answer an operator's raw reply gives, ignoring surrounding
/// whitespace and case.
pub fn parse_choice(input: &str) -> (r: Choice)
    ensures
        r == choice_of(lower_of(trim_of(input@))),
{
    let t = trim_text(input);
    let l = lowercase(t.as_str());
    choice_from_normalized(&l)
}

/// The allowed pairs after the operator answered `choice` about `server`/`tool`.
pub open spec fn allowed_after(allowed: Set<(Seq<char>, Seq<char>)>, server: Seq<char>, tool: Seq<char>, choice: Choice) -> Set<(Seq<char>, Seq<char>)> {
    if choice == Choice::AlwaysAllow { allowed.insert((server, tool)) } else { allowed }
}

/// Applies the operator's answer: a denial is an error naming the tool, and
/// "always" allows the pair from now on.
pub fn apply_choice(gate: &mut AuthorizationGate, server: &str, tool: &str, qualified: &str, choice: Choice) -> (r: Result<(), GateError>)
    ensures
        final(gate)@ == allowed_after(old(gate)@, server@, tool@, choice),
        r is Err <==> choice == Choice::Deny,
        r matches Err(e) ==> e matches GateError::Denied(n) && n@ == qualified@,
{
    match choice {
        Choice::Deny => Err(GateError::Denied(qualified.to_string())),
        Choice::AlwaysAllow => {
            gate.add_always_allow(server, tool);
            Ok(())
        },
        Choice::AllowOnce => Ok(()),
    }
}

/// The allowed pairs after a run of answers, each about a (server, tool) pair.
pub open spec fn allowed_after_answers(
    allowed: Set<(Seq<char>, Seq<char>)>,
    answers: Seq<(Seq<char>, Seq<char>, Choice)>,
) -> Set<(Seq<char>, Seq<char>)>
    decreases answers.len(),
{
    if answers.len() == 0 {
        allowed
    } else {
        let a = answers.last();
        allowed_after(allowed_after_answers(allowed, answers.drop_last()), a.0, a.1, a.2)
    }
}

/// A pair never decided must be asked about; once the operator answered
/// "always" for it, every later call of it is allowed without asking,
/// whatever answers about any pairs come in between.
pub proof fn lemma_always_allow_is_permanent(
    allowed: Set<(Seq<char>, Seq<char>)>,
    server: Seq<char>,
    tool: Seq<char>,
    later: Seq<(Seq<char>, Seq<char>, Choice)>,
)
    ensures
        !allowed.contains((server, tool)) ==> authorization_of(allowed, server, tool) == Authorization::MustPrompt,
        authorization_of(
            allowed_after_answers(allowed_after(allowed, server, tool, Choice::AlwaysAllow), later),
            server,
            tool,
        ) == Authorization::Allowed,
    decreases later.len(),
{
    if later.len() > 0 {
        lemma_always_allow_is_permanent(allowed, server, tool, later.drop_last());
    }
}

/// A name without a `/` is never a well-formed qualified name.
pub proof fn lemma_name_without_slash_rejected(s: Seq<char>)
    requires
        forall|i: int| 0 <= i < s.len() ==> s[i] != '/',
    ensures
        !well_formed_name(s),
{
}

/// The function name of `server/tool` leads back to the same server and tool,
/// when neither part holds a `.` and the server holds no `/`.
pub proof fn lemma_function_name_round_trip(server: Seq<char>, tool: Seq<char>)
    requires
        server.len() > 0,
        tool.len() > 0,
        forall|i: int| 0 <= i < server.len() ==> server[i] != '/' && server[i] != '.',
        forall|i: int| 0 <= i < tool.len() ==> tool[i] != '.',
    ensures
        ({
            let name = server + seq!['/'] + tool;
            &&& qualified_name_of(dotted(name)) == name
            &&& well_formed_name(name)
            &&& is_first_slash(name, server.len() as int)
            &&& name.subrange(0, server.len() as int) == server
            &&& name.subrange(server.len() as int + 1, name.len() as int) == tool
        }),
{
    let name = server + seq!['/'] + tool;
    assert(qualified_name_of(dotted(name)) =~= name);
    assert(is_first_slash(name, server.len() as int));
    assert(name.subrange(0, server.len() as int) =~= server);
    assert(name.subrange(server.len() as int + 1, name.len() as int) =~= tool);
}

} // verus!
