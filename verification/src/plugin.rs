//! Plugin descriptors: inert metadata the engine stores by id.
//!
//! A descriptor holds an id, a display name, a type tag and a mapping from
//! parameter names to Q16.16 values.  The mapping is an association list with
//! first-match lookup, so inserting an existing name overwrites its value.

use vstd::prelude::*;

verus! {

/// Relies on `str`'s `PartialEq`: two string slices are equal exactly when
/// their character sequences are.
#[verifier::external_body]
fn str_eq(a: &str, b: &str) -> (r: bool)
    ensures
        r == (a@ == b@),
{
    a == b
}

/// Whether two plugin descriptors carry the same id.
pub fn plugin_id_eq(a: &AudioPlugin, b: &AudioPlugin) -> (r: bool)
    ensures
        r == (a.id@ == b.id@),
{
    str_eq(a.id.as_str(), b.id.as_str())
}

/// A plugin descriptor: inert metadata consulted by outside collaborators,
/// never by sample generation.
pub struct AudioPlugin {
    pub id: String,
    pub name: String,
    pub plugin_type: String,
    /// Parameter-name to value mapping (values in Q16.16).
    pub parameters: Vec<(String, i64)>,
}

/// The first index at or after `i` whose parameter name is `name`, or the
/// list length when there is none.
pub open spec fn find_param_s(ps: Seq<(String, i64)>, name: Seq<char>, i: int) -> int
    recommends
        0 <= i <= ps.len(),
    decreases ps.len() - i,
{
    if i < 0 || i >= ps.len() {
        ps.len() as int
    } else if ps[i].0@ == name {
        i
    } else {
        find_param_s(ps, name, i + 1)
    }
}

/// The found index is in range, names before it differ, and the name at it
/// matches.
pub proof fn lemma_find_param_s(ps: Seq<(String, i64)>, name: Seq<char>, i: int)
    requires
        0 <= i <= ps.len(),
    ensures
        i <= find_param_s(ps, name, i) <= ps.len(),
        find_param_s(ps, name, i) < ps.len() ==> ps[find_param_s(ps, name, i)].0@ == name,
        forall|j: int| i <= j < find_param_s(ps, name, i) ==> ps[j].0@ != name,
    decreases ps.len() - i,
{
    if i < ps.len() && ps[i].0@ != name {
        lemma_find_param_s(ps, name, i + 1);
    }
}

impl AudioPlugin {
    pub fn new(id: String, name: String, plugin_type: String) -> (r: AudioPlugin)
        ensures
            r.id@ == id@,
            r.name@ == name@,
            r.plugin_type@ == plugin_type@,
            r.parameters@.len() == 0,
    {
        AudioPlugin {
            id,
            name,
            plugin_type,
            parameters: Vec::new(),
        }
    }

    /// Inserts or overwrites the parameter `name` with `value`.
    pub fn set_parameter(&mut self, name: &str, value: i64)
        ensures
            ({
                let ps = old(self).parameters@;
                let j = find_param_s(ps, name@, 0);
                if j < ps.len() {
                    &&& final(self).parameters@.len() == ps.len()
                    &&& final(self).parameters@[j].0@ == name@
                    &&& final(self).parameters@[j].1 == value
                    &&& forall|k: int| 0 <= k < ps.len() && k != j
                        ==> final(self).parameters@[k] == ps[k]
                } else {
                    &&& final(self).parameters@.len() == ps.len() + 1
                    &&& final(self).parameters@[ps.len() as int].0@ == name@
                    &&& final(self).parameters@[ps.len() as int].1 == value
                    &&& forall|k: int| 0 <= k < ps.len()
                        ==> final(self).parameters@[k] == ps[k]
                }
            }),
            final(self).id@ == old(self).id@,
            final(self).name@ == old(self).name@,
            final(self).plugin_type@ == old(self).plugin_type@,
    {
        proof {
            lemma_find_param_s(self.parameters@, name@, 0);
        }
        let len = self.parameters.len();
        let mut i: usize = 0;
        while i < len
            invariant
                *self == *old(self),
                i <= len == old(self).parameters@.len(),
                forall|j: int| 0 <= j < i ==> old(self).parameters@[j].0@ != name@,
                find_param_s(old(self).parameters@, name@, 0)
                    == find_param_s(old(self).parameters@, name@, i as int),
            decreases len - i,
        {
            if str_eq(self.parameters[i].0.as_str(), name) {
                proof {
                    assert(find_param_s(old(self).parameters@, name@, i as int) == i as int);
                }
                let key = self.parameters[i].0.clone();
                self.parameters.set(i, (key, value));
                return;
            }
            i += 1;
        }
        self.parameters.push((name.to_owned(), value));
    }

    /// Looks the parameter `name` up; `None` exactly when it was never set.
    pub fn get_parameter(&self, name: &str) -> (r: Option<i64>)
        ensures
            ({
                let ps = self.parameters@;
                let j = find_param_s(ps, name@, 0);
                if j < ps.len() {
                    r == Some(ps[j].1)
                } else {
                    r == Option::<i64>::None
                }
            }),
    {
        proof {
            lemma_find_param_s(self.parameters@, name@, 0);
        }
        let len = self.parameters.len();
        let mut i: usize = 0;
        while i < len
            invariant
                i <= len == self.parameters@.len(),
                forall|j: int| 0 <= j < i ==> self.parameters@[j].0@ != name@,
                find_param_s(self.parameters@, name@, 0)
                    == find_param_s(self.parameters@, name@, i as int),
            decreases len - i,
        {
            if str_eq(self.parameters[i].0.as_str(), name) {
                return Some(self.parameters[i].1);
            }
            i += 1;
        }
        None
    }

    /// The plugin's id.
    pub fn id(&self) -> (r: String)
        ensures
            r@ == self.id@,
    {
        self.id.clone()
    }

    /// The plugin's display name.
    pub fn name(&self) -> (r: String)
        ensures
            r@ == self.name@,
    {
        self.name.clone()
    }

    /// The plugin's type tag.
    pub fn plugin_type(&self) -> (r: String)
        ensures
            r@ == self.plugin_type@,
    {
        self.plugin_type.clone()
    }
}

} // verus!
