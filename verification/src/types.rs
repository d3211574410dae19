use vstd::prelude::*;

verus! {

/// A time window, given by its two ends as strings.
#[derive(Clone, Debug, PartialEq, Eq, PartialOrd, Ord, Hash)]
pub struct TimeShard {
    pub start: String,
    pub end: String,
}

/// A condition under which a hotfix applies. A union: exactly one of its
/// alternatives is set, or none (`UnknownField`).
#[allow(non_camel_case_types)]
#[derive(Debug, PartialEq)]
pub enum Condition {
    not_condition(Box<Condition>),
    and_condition(Vec<Condition>),
    or_condition(Vec<Condition>),
    repos(Vec<String>),
    platforms(Vec<String>),
    domains(Vec<String>),
    tiers(Vec<String>),
    hosts(Vec<String>),
    group(String),
    shard(i32),
    user_shard(i32),
    time_shard(TimeShard),
    host_prefixes(Vec<String>),
    UnknownField(i32),
}

/// A piece of client configuration together with the condition under
/// which it applies.
#[derive(Clone, Debug, PartialEq)]
pub struct Hotfix {
    pub config: String,
    pub condition: Condition,
}

/// The client configuration: a list of hotfixes.
#[derive(Clone, Debug, PartialEq)]
pub struct ClientConfig {
    pub hotfixes: Vec<Hotfix>,
}

/// The mathematical form of a `TimeShard`.
pub struct TimeShardV {
    pub start: Seq<char>,
    pub end: Seq<char>,
}

/// The mathematical form of a `Condition`.
#[allow(non_camel_case_types)]
pub enum ConditionV {
    not_condition(Box<ConditionV>),
    and_condition(Seq<ConditionV>),
    or_condition(Seq<ConditionV>),
    repos(Seq<Seq<char>>),
    platforms(Seq<Seq<char>>),
    domains(Seq<Seq<char>>),
    tiers(Seq<Seq<char>>),
    hosts(Seq<Seq<char>>),
    group(Seq<char>),
    shard(i32),
    user_shard(i32),
    time_shard(TimeShardV),
    host_prefixes(Seq<Seq<char>>),
    UnknownField(i32),
}

/// The mathematical form of a `Hotfix`.
pub struct HotfixV {
    pub config: Seq<char>,
    pub condition: ConditionV,
}

/// The mathematical form of a `ClientConfig`.
pub struct ClientConfigV {
    pub hotfixes: Seq<HotfixV>,
}

/// The character sequences of a list of strings.
pub open spec fn strings_view(v: Seq<String>) -> Seq<Seq<char>> {
    v.map_values(|s: String| s@)
}

impl View for TimeShard {
    type V = TimeShardV;

    open spec fn view(&self) -> TimeShardV {
        TimeShardV { start: self.start@, end: self.end@ }
    }
}

/// The mathematical form of a `Condition`.
pub open spec fn condition_view(c: Condition) -> ConditionV
    decreases c,
{
    match c {
        Condition::not_condition(b) => ConditionV::not_condition(Box::new(condition_view(*b))),
        Condition::and_condition(v) => ConditionV::and_condition(conditions_view(v)),
        Condition::or_condition(v) => ConditionV::or_condition(conditions_view(v)),
        Condition::repos(v) => ConditionV::repos(strings_view(v@)),
        Condition::platforms(v) => ConditionV::platforms(strings_view(v@)),
        Condition::domains(v) => ConditionV::domains(strings_view(v@)),
        Condition::tiers(v) => ConditionV::tiers(strings_view(v@)),
        Condition::hosts(v) => ConditionV::hosts(strings_view(v@)),
        Condition::group(s) => ConditionV::group(s@),
        Condition::shard(i) => ConditionV::shard(i),
        Condition::user_shard(i) => ConditionV::user_shard(i),
        Condition::time_shard(t) => ConditionV::time_shard(t@),
        Condition::host_prefixes(v) => ConditionV::host_prefixes(strings_view(v@)),
        Condition::UnknownField(i) => ConditionV::UnknownField(i),
    }
}

/// The mathematical form of a list of conditions.
pub open spec fn conditions_view(v: Vec<Condition>) -> Seq<ConditionV>
    decreases v,
{
    Seq::new(
        v@.len(),
        |j: int|
            if 0 <= j < v@.len() {
                condition_view(v@[j])
            } else {
                ConditionV::UnknownField(0)
            },
    )
}

/// The mathematical form of a `Hotfix`.
impl View for Hotfix {
    type V = HotfixV;

    open spec fn view(&self) -> HotfixV {
        HotfixV { config: self.config@, condition: self.condition@ }
    }
}

/// The mathematical form of a list of hotfixes.
pub open spec fn hotfixes_view(v: Seq<Hotfix>) -> Seq<HotfixV> {
    v.map_values(|h: Hotfix| h@)
}

impl View for ClientConfig {
    type V = ClientConfigV;

    open spec fn view(&self) -> ClientConfigV {
        ClientConfigV { hotfixes: hotfixes_view(self.hotfixes@) }
    }
}

/// The value that a `TimeShard` has when nothing sets it: both ends empty.
pub open spec fn default_time_shard() -> TimeShardV {
    TimeShardV { start: Seq::empty(), end: Seq::empty() }
}

/// The value that a `Condition` has when no alternative is set.
pub open spec fn default_condition() -> ConditionV {
    ConditionV::UnknownField(-1i32)
}

/// The value that a `Hotfix` has when nothing sets it.
pub open spec fn default_hotfix() -> HotfixV {
    HotfixV { config: Seq::empty(), condition: default_condition() }
}

/// The value that a `ClientConfig` has when nothing sets it: no hotfixes.
pub open spec fn default_client_config() -> ClientConfigV {
    ClientConfigV { hotfixes: Seq::empty() }
}

impl Default for TimeShard {
    fn default() -> (r: Self)
        ensures
            r@ == default_time_shard(),
    {
        TimeShard { start: String::new(), end: String::new() }
    }
}

impl Default for Condition {
    fn default() -> (r: Self)
        ensures
            r@ == default_condition(),
    {
        Condition::UnknownField(-1)
    }
}

impl Default for Hotfix {
    fn default() -> (r: Self)
        ensures
            r@ == default_hotfix(),
    {
        Hotfix { config: String::new(), condition: Condition::UnknownField(-1) }
    }
}

impl Default for ClientConfig {
    fn default() -> (r: Self)
        ensures
            r@ == default_client_config(),
    {
        let r = ClientConfig { hotfixes: Vec::new() };
        assert(r@.hotfixes =~= Seq::<HotfixV>::empty());
        r
    }
}

impl View for Condition {
    type V = ConditionV;

    open spec fn view(&self) -> ConditionV {
        condition_view(*self)
    }
}

/// A copy of a list of strings.
pub fn copy_strings(v: &Vec<String>) -> (r: Vec<String>)
    ensures
        strings_view(r@) == strings_view(v@),
{
    let mut r: Vec<String> = Vec::new();
    let mut i: usize = 0;
    while i < v.len()
        invariant
            i <= v.len(),
            r@ =~= v@.take(i as int),
        decreases v.len() - i,
    {
        r.push(v[i].clone());
        i = i + 1;
    }
    assert(v@.take(v.len() as int) =~= v@);
    r
}

/// A copy of a list of conditions, element by element.
pub fn copy_conditions(v: &Vec<Condition>) -> (r: Vec<Condition>)
    ensures
        conditions_view(r) == conditions_view(*v),
    decreases v, 0int,
{
    let mut r: Vec<Condition> = Vec::new();
    let mut i: usize = 0;
    while i < v.len()
        invariant
            i <= v.len(),
            r@.len() == i,
            forall|j: int| 0 <= j < i ==> condition_view(#[trigger] r@[j]) == condition_view(v@[j]),
        decreases v.len() - i,
    {
        proof {
            assert(decreases_to!(v => v@));
            assert(decreases_to!(v@ => v@[i as int]));
        }
        let c = v[i].deep_copy();
        r.push(c);
        i = i + 1;
    }
    assert(conditions_view(r) =~= conditions_view(*v));
    r
}

impl Condition {
    /// A copy of the condition, alternative by alternative.
    pub fn deep_copy(&self) -> (r: Condition)
        ensures
            r@ == self@,
        decreases *self, 1int,
    {
        match self {
            Condition::not_condition(b) => Condition::not_condition(Box::new(b.deep_copy())),
            Condition::and_condition(v) => Condition::and_condition(copy_conditions(v)),
            Condition::or_condition(v) => Condition::or_condition(copy_conditions(v)),
            Condition::repos(v) => Condition::repos(copy_strings(v)),
            Condition::platforms(v) => Condition::platforms(copy_strings(v)),
            Condition::domains(v) => Condition::domains(copy_strings(v)),
            Condition::tiers(v) => Condition::tiers(copy_strings(v)),
            Condition::hosts(v) => Condition::hosts(copy_strings(v)),
            Condition::group(s) => Condition::group(s.clone()),
            Condition::shard(i) => Condition::shard(*i),
            Condition::user_shard(i) => Condition::user_shard(*i),
            Condition::time_shard(t) => Condition::time_shard(
                TimeShard { start: t.start.clone(), end: t.end.clone() },
            ),
            Condition::host_prefixes(v) => Condition::host_prefixes(copy_strings(v)),
            Condition::UnknownField(i) => Condition::UnknownField(*i),
        }
    }
}

impl Clone for Condition {
    fn clone(&self) -> (r: Self)
        ensures
            r@ == self@,
    {
        self.deep_copy()
    }
}

} // verus!
