use vstd::prelude::*;

verus! {

/// `std::path::PathBuf`, carried in errors as an opaque value.
#[verifier::external_type_specification]
#[verifier::external_body]
pub struct ExPathBuf(std::path::PathBuf);

/// Every action the pet can perform (the whitelist). A name outside it
/// falls back to `Idle`.
#[derive(Debug, Clone, Copy, PartialEq, Eq, Hash, Structural)]
pub enum Action {
    Idle,
    Walk,
    Jump,
    Attack,
    Sleep,
    Happy,
    Angry,
}

/// The action a name denotes: the seven lowercase names of the whitelist,
/// and `Idle` for any other name.
pub open spec fn action_of_name(s: Seq<char>) -> Action {
    if s == "idle"@ {
        Action::Idle
    } else if s == "walk"@ {
        Action::Walk
    } else if s == "jump"@ {
        Action::Jump
    } else if s == "attack"@ {
        Action::Attack
    } else if s == "sleep"@ {
        Action::Sleep
    } else if s == "happy"@ {
        Action::Happy
    } else if s == "angry"@ {
        Action::Angry
    } else {
        Action::Idle
    }
}

/// Whether a name is one of the seven names of the whitelist.
pub open spec fn is_known_action_name(s: Seq<char>) -> bool {
    s == "idle"@ || s == "walk"@ || s == "jump"@ || s == "attack"@ || s == "sleep"@ || s
        == "happy"@ || s == "angry"@
}

/// The lowercase name of an action, as scripts and configuration write it.
pub open spec fn name_of(a: Action) -> Seq<char> {
    match a {
        Action::Idle => seq!['i', 'd', 'l', 'e'],
        Action::Walk => seq!['w', 'a', 'l', 'k'],
        Action::Jump => seq!['j', 'u', 'm', 'p'],
        Action::Attack => seq!['a', 't', 't', 'a', 'c', 'k'],
        Action::Sleep => seq!['s', 'l', 'e', 'e', 'p'],
        Action::Happy => seq!['h', 'a', 'p', 'p', 'y'],
        Action::Angry => seq!['a', 'n', 'g', 'r', 'y'],
    }
}

/// Every action's own name is on the whitelist and denotes that action.
pub proof fn lemma_every_action_is_named(a: Action)
    ensures
        is_known_action_name(name_of(a)),
        action_of_name(name_of(a)) == a,
{
    reveal_strlit("idle");
    reveal_strlit("walk");
    reveal_strlit("jump");
    reveal_strlit("attack");
    reveal_strlit("sleep");
    reveal_strlit("happy");
    reveal_strlit("angry");
    assert("idle"@ =~= seq!['i', 'd', 'l', 'e']);
    assert("walk"@ =~= seq!['w', 'a', 'l', 'k']);
    assert("jump"@ =~= seq!['j', 'u', 'm', 'p']);
    assert("attack"@ =~= seq!['a', 't', 't', 'a', 'c', 'k']);
    assert("sleep"@ =~= seq!['s', 'l', 'e', 'e', 'p']);
    assert("happy"@ =~= seq!['h', 'a', 'p', 'p', 'y']);
    assert("angry"@ =~= seq!['a', 'n', 'g', 'r', 'y']);
}

/// The whitelist holds exactly the seven action names, and a name off the
/// whitelist denotes `Idle`.
pub proof fn lemma_whitelist_is_action_names(s: Seq<char>)
    ensures
        is_known_action_name(s) <==> exists|a: Action| s == #[trigger] name_of(a),
        is_known_action_name(s) ==> s == name_of(action_of_name(s)),
        !is_known_action_name(s) ==> action_of_name(s) == Action::Idle,
{
    lemma_every_action_is_named(Action::Idle);
    lemma_every_action_is_named(Action::Walk);
    lemma_every_action_is_named(Action::Jump);
    lemma_every_action_is_named(Action::Attack);
    lemma_every_action_is_named(Action::Sleep);
    lemma_every_action_is_named(Action::Happy);
    lemma_every_action_is_named(Action::Angry);
    if exists|a: Action| s == #[trigger] name_of(a) {
        let a = choose|a: Action| s == #[trigger] name_of(a);
        lemma_every_action_is_named(a);
    }
    if is_known_action_name(s) {
        assert(s == name_of(action_of_name(s)));
    }
}

impl Default for Action {
    fn default() -> (a: Self)
        ensures
            a == Action::Idle,
    {
        Action::Idle
    }
}

pub(crate) fn same_text(s: &String, lit: &str) -> (b: bool)
    ensures
        b == (s@ == lit@),
{
    let other = lit.to_owned();
    *s == other
}

impl Action {
    /// Parses an action name; an unknown name falls back to `Idle`.
    pub fn from_str_or_fallback(s: &str) -> (a: Self)
        ensures
            a == action_of_name(s@),
    {
        let name = s.to_owned();
        if same_text(&name, "idle") {
            Action::Idle
        } else if same_text(&name, "walk") {
            Action::Walk
        } else if same_text(&name, "jump") {
            Action::Jump
        } else if same_text(&name, "attack") {
            Action::Attack
        } else if same_text(&name, "sleep") {
            Action::Sleep
        } else if same_text(&name, "happy") {
            Action::Happy
        } else if same_text(&name, "angry") {
            Action::Angry
        } else {
            Action::Idle
        }
    }
}

/// One timeline event of a generated script.
#[derive(Debug, Clone)]
pub struct TimelineEvent {
    pub timestamp_ms: u64,
    pub actor_id: String,
    pub action: Action,
}

impl TimelineEvent {
    /// Builds an event from the fields of a script entry, resolving the
    /// action name against the whitelist (unknown names become `Idle`).
    pub fn from_script_entry(timestamp_ms: u64, actor_id: String, action_name: &str) -> (e: Self)
        ensures
            e.timestamp_ms == timestamp_ms,
            e.actor_id == actor_id,
            e.action == action_of_name(action_name@),
    {
        TimelineEvent { timestamp_ms, actor_id, action: Action::from_str_or_fallback(action_name) }
    }
}

/// Errors of the engine.
#[derive(Debug)]
pub enum EngineError {
    AssetNotFound(std::path::PathBuf),
    ConfigInvalid(String),
    MissingAnimation(Action),
    InvalidTimeline(u64),
}

} // verus!
