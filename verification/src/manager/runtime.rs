//! The library's settings by name, set up once and then read by the
//! dialogs. The process-wide instance and the callback live with the caller.

use vstd::prelude::*;
use crate::strmap::text_view;
use crate::text::owned;
use crate::tools::Properties;

verus! {

/// Settings by name.
#[derive(Debug)]
pub struct RuntimeParams {
    params: Properties,
}

/// The map that a list of pairs gives: a later pair replaces an earlier one
/// with the same name.
pub open spec fn pairs_map(ps: Seq<(String, String)>) -> Map<Seq<char>, Seq<char>>
    decreases ps.len(),
{
    if ps.len() == 0 {
        Map::empty()
    } else {
        pairs_map(ps.drop_last()).insert(ps.last().0@, ps.last().1@)
    }
}

impl RuntimeParams {
    pub closed spec fn view(&self) -> Map<Seq<char>, Seq<char>> {
        text_view(self.params@)
    }

    /// No settings.
    pub fn new() -> (r: Self)
        ensures
            r.view() == Map::<Seq<char>, Seq<char>>::empty(),
    {
        let r = RuntimeParams { params: Properties::new() };
        assert(r.view() =~= Map::<Seq<char>, Seq<char>>::empty());
        r
    }
}

/// Replaces the settings by those given.
pub fn init(state: &mut RuntimeParams, params: Vec<(String, String)>)
    ensures
        final(state).view() == pairs_map(params@),
{
    let ghost ps = params@;
    let mut m = Properties::new();
    assert(text_view(m@) =~= pairs_map(ps.take(0)));
    let mut i: usize = 0;
    while i < params.len()
        invariant
            ps == params@,
            i <= ps.len(),
            text_view(m@) == pairs_map(ps.take(i as int)),
        decreases params.len() - i,
    {
        let ghost before = m@;
        let k = owned(params[i].0.as_str());
        let v = owned(params[i].1.as_str());
        m.insert(k, v);
        proof {
            crate::gv::lemma_text_view_insert(before, ps[i as int].0@, v);
            assert(ps.take(i + 1).drop_last() =~= ps.take(i as int));
        }
        i += 1;
    }
    assert(ps.take(ps.len() as int) =~= ps);
    state.params = m;
}

/// Forgets all settings.
pub fn done(state: &mut RuntimeParams)
    ensures
        final(state).view() == Map::<Seq<char>, Seq<char>>::empty(),
{
    state.params = Properties::new();
    assert(state.view() =~= Map::<Seq<char>, Seq<char>>::empty());
}

/// Sets one setting.
pub fn set_param(state: &mut RuntimeParams, name: &str, value: &str)
    ensures
        final(state).view() == old(state).view().insert(name@, value@),
{
    let ghost before = state.params@;
    let v = owned(value);
    state.params.insert(owned(name), v);
    proof {
        crate::gv::lemma_text_view_insert(before, name@, v);
    }
}

/// The setting `name`, where it is set.
pub fn get_param(state: &RuntimeParams, name: &str) -> (r: Option<String>)
    ensures
        match r {
            Some(v) => state.view().contains_key(name@) && state.view()[name@] == v@,
            None => !state.view().contains_key(name@),
        },
{
    match state.params.get(name) {
        Some(v) => Some(owned(v.as_str())),
        None => None,
    }
}

/// A setting reads back as it was last set.
pub proof fn law_param_read_back(before: RuntimeParams, after: RuntimeParams, name: Seq<char>, value: Seq<char>, other: Seq<char>)
    requires
        after.view() == before.view().insert(name, value),
    ensures
        after.view().contains_key(name) && after.view()[name] == value,
        other != name ==> (after.view().contains_key(other) == before.view().contains_key(other)),
        other != name && before.view().contains_key(other) ==> after.view()[other] == before.view()[other],
{
}

} // verus!
