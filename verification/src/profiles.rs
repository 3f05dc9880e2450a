//! Connection profiles for external storage providers, and the expansion of
//! `${VAR}` references in their sensitive fields.
//!
//! Profiles are read from `profiles.toml` by the caller; the environment is
//! passed in as a list of variables.

use crate::text::{chars_of, string_of};
use crate::verify::chars_eq;
use vstd::prelude::*;

verus! {

/// A profile for connecting to an external provider.
pub struct Profile {
    pub provider: String,
    pub endpoint: Option<String>,
    pub region: Option<String>,
    pub access_key: Option<String>,
    pub secret_key: Option<String>,
    pub path_style: Option<bool>,
    pub account_name: Option<String>,
    pub connection_string: Option<String>,
    pub service_account_json: Option<String>,
}

impl Clone for Profile {
    fn clone(&self) -> (r: Self)
        ensures
            r == *self,
    {
        Profile {
            provider: self.provider.clone(),
            endpoint: self.endpoint.clone(),
            region: self.region.clone(),
            access_key: self.access_key.clone(),
            secret_key: self.secret_key.clone(),
            path_style: self.path_style,
            account_name: self.account_name.clone(),
            connection_string: self.connection_string.clone(),
            service_account_json: self.service_account_json.clone(),
        }
    }
}

/// Profiles by name, as the sections of `profiles.toml` define them: no two
/// have the same name.
pub struct Profiles {
    entries: Vec<(String, Profile)>,
}

/// The names of the profiles.
pub open spec fn profile_names(entries: Seq<(String, Profile)>) -> Seq<Seq<char>> {
    entries.map_values(|e: (String, Profile)| e.0@)
}

/// The first profile called `name`.
pub open spec fn find_profile(entries: Seq<(String, Profile)>, name: Seq<char>) -> Option<Profile>
    decreases entries.len(),
{
    if entries.len() == 0 {
        None
    } else if entries[0].0@ == name {
        Some(entries[0].1)
    } else {
        find_profile(entries.drop_first(), name)
    }
}

/// No two entries have the same name.
pub open spec fn names_distinct(entries: Seq<(String, Profile)>) -> bool {
    forall|i: int, j: int| 0 <= i < j < entries.len() ==> entries[i].0@ != entries[j].0@
}

impl Profiles {
    #[verifier::type_invariant]
    spec fn inv(self) -> bool {
        names_distinct(self.entries@)
    }

    /// The profiles with their names, in the order they were added.
    pub closed spec fn spec_entries(self) -> Seq<(String, Profile)> {
        self.entries@
    }

    /// No profiles.
    pub fn new() -> (p: Self)
        ensures
            p.spec_entries() == Seq::<(String, Profile)>::empty(),
    {
        Profiles { entries: Vec::new() }
    }

    /// Adds the profile `name`, replacing a profile of that name where there
    /// is one (in its place); otherwise it goes last.
    pub fn insert(&mut self, name: String, profile: Profile)
        ensures
            names_distinct(final(self).spec_entries()),
            (exists|i: int|
                0 <= i < old(self).spec_entries().len() && old(self).spec_entries()[i].0@ == name@
                    && final(self).spec_entries() == old(self).spec_entries().update(i, (name, profile)))
                || ((forall|i: int|
                0 <= i < old(self).spec_entries().len() ==> old(self).spec_entries()[i].0@ != name@)
                && final(self).spec_entries() == old(self).spec_entries().push((name, profile))),
    {
        proof {
            use_type_invariant(&*self);
        }
        let n = chars_of(name.as_str());
        let mut i: usize = 0;
        while i < self.entries.len()
            invariant
                i <= self.entries@.len(),
                n@ == name@,
                forall|k: int| 0 <= k < i ==> self.entries@[k].0@ != name@,
            ensures
                i <= self.entries@.len(),
                forall|k: int| 0 <= k < i ==> self.entries@[k].0@ != name@,
                i < self.entries@.len() ==> self.entries@[i as int].0@ == name@,
            decreases self.entries@.len() - i,
        {
            let k = chars_of(self.entries[i].0.as_str());
            if chars_eq(&k, &n) {
                break;
            }
            i = i + 1;
        }
        let ghost before = self.entries@;
        let mut v = Vec::new();
        std::mem::swap(&mut v, &mut self.entries);
        let ghost nm = name@;
        let ghost entry = (name, profile);
        if i < v.len() {
            v.set(i, (name, profile));
            assert(v@ == before.update(i as int, entry));
            assert forall|a: int, b: int| 0 <= a < b < v@.len() implies v@[a].0@ != v@[b].0@ by {
                assert(before[a].0@ != before[b].0@);
                if a == i {
                    assert(v@[a].0@ == before[a].0@);
                }
                if b == i {
                    assert(v@[b].0@ == before[b].0@);
                }
            }
        } else {
            v.push((name, profile));
            assert(v@ == before.push(entry));
            assert forall|a: int, b: int| 0 <= a < b < v@.len() implies v@[a].0@ != v@[b].0@ by {
                if b < before.len() {
                    assert(before[a].0@ != before[b].0@);
                } else {
                    assert(before[a].0@ != nm);
                }
            }
        }
        self.entries = v;
    }

    /// The profiles with their names.
    pub fn entries(&self) -> (r: &Vec<(String, Profile)>)
        ensures
            r@ == self.spec_entries(),
    {
        &self.entries
    }

    /// Number of profiles.
    pub fn len(&self) -> (n: usize)
        ensures
            n == self.spec_entries().len(),
    {
        self.entries.len()
    }

    /// The profile called `name`.
    pub fn get(&self, name: &str) -> (r: Option<&Profile>)
        ensures
            match r {
                Some(p) => find_profile(self.spec_entries(), name@) == Some(*p),
                None => find_profile(self.spec_entries(), name@) is None,
            },
    {
        let n = chars_of(name);
        let mut i: usize = 0;
        assert(self.entries@.skip(0) =~= self.entries@);
        while i < self.entries.len()
            invariant
                i <= self.entries@.len(),
                n@ == name@,
                find_profile(self.entries@, name@) == find_profile(self.entries@.skip(i as int), name@),
            decreases self.entries@.len() - i,
        {
            let ghost rest = self.entries@.skip(i as int);
            assert(rest.drop_first() =~= self.entries@.skip(i + 1));
            let k = chars_of(self.entries[i].0.as_str());
            if chars_eq(&k, &n) {
                return Some(&self.entries[i].1);
            }
            i = i + 1;
        }
        assert(self.entries@.skip(i as int) =~= seq![]);
        None
    }
}

/// The variable a `${VAR}` reference names; `None` when the value does not
/// start with `${` and end with `}` (which takes three characters at least,
/// as `${` alone does not end with `}`).
pub open spec fn env_reference_spec(value: Seq<char>) -> Option<Seq<char>> {
    if value.len() >= 3 && value[0] == '$' && value[1] == '{' && value.last() == '}' {
        Some(value.subrange(2, value.len() - 1))
    } else {
        None
    }
}

/// The value of the first variable called `name` in the environment.
pub open spec fn env_lookup(env: Seq<(String, String)>, name: Seq<char>) -> Option<Seq<char>>
    decreases env.len(),
{
    if env.len() == 0 {
        None
    } else if env[0].0@ == name {
        Some(env[0].1@)
    } else {
        env_lookup(env.drop_first(), name)
    }
}

/// A value with a `${VAR}` reference to a set variable replaced by that
/// variable's value; any other value unchanged.
pub open spec fn expand_spec(value: Seq<char>, env: Seq<(String, String)>) -> Seq<char> {
    match env_reference_spec(value) {
        Some(name) => match env_lookup(env, name) {
            Some(v) => v,
            None => value,
        },
        None => value,
    }
}

/// The variable named by a `${VAR}` reference.
pub fn env_reference(value: &str) -> (r: Option<String>)
    ensures
        match r {
            Some(n) => env_reference_spec(value@) == Some(n@),
            None => env_reference_spec(value@) is None,
        },
{
    let v = chars_of(value);
    let n = v.len();
    if n < 2 || v[0] != '$' || v[1] != '{' || v[n - 1] != '}' {
        return None;
    }
    let mut name: Vec<char> = Vec::new();
    let mut i: usize = 2;
    let end = v.len() - 1;
    while i < end
        invariant
            2 <= i <= end,
            end == v@.len() - 1,
            name@ == v@.subrange(2, i as int),
        decreases end - i,
    {
        name.push(v[i]);
        i = i + 1;
        assert(name@ =~= v@.subrange(2, i as int));
    }
    Some(string_of(&name))
}

fn env_get<'a>(env: &'a Vec<(String, String)>, name: &str) -> (r: Option<&'a String>)
    ensures
        match r {
            Some(v) => env_lookup(env@, name@) == Some(v@),
            None => env_lookup(env@, name@) is None,
        },
{
    let n = chars_of(name);
    let mut i: usize = 0;
    assert(env@.skip(0) =~= env@);
    while i < env.len()
        invariant
            i <= env@.len(),
            n@ == name@,
            env_lookup(env@, name@) == env_lookup(env@.skip(i as int), name@),
        decreases env@.len() - i,
    {
        let ghost rest = env@.skip(i as int);
        assert(rest.drop_first() =~= env@.skip(i + 1));
        let k = chars_of(env[i].0.as_str());
        if chars_eq(&k, &n) {
            return Some(&env[i].1);
        }
        i = i + 1;
    }
    assert(env@.skip(i as int) =~= seq![]);
    None
}

/// Expands a `${VAR}` reference from the environment `env` (name, value);
/// a reference to an unset variable, and any other value, stays as it is.
pub fn expand_env_vars(value: &str, env: &Vec<(String, String)>) -> (r: String)
    ensures
        r@ == expand_spec(value@, env@),
{
    match env_reference(value) {
        Some(name) => match env_get(env, name.as_str()) {
            Some(v) => v.clone(),
            None => value.to_owned(),
        },
        None => value.to_owned(),
    }
}

/// Replaces the value of an optional field by what `updater` makes of it;
/// an absent field stays absent.
pub fn expand_optional_field<F: Fn(&str) -> String>(field: &mut Option<String>, updater: F)
    requires
        forall|s: &str| updater.requires((s,)),
    ensures
        match *old(field) {
            None => *final(field) is None,
            Some(v) => exists|s: &str, r: String|
                s@ == v@ && #[trigger] updater.ensures((s,), r) && *final(field) == Some(r),
        },
{
    match field {
        Some(v) => {
            let s = v.as_str();
            let r = updater(s);
            *field = Some(r);
        },
        None => {},
    }
}

/// The fields of a profile that may hold `${VAR}` references.
pub open spec fn expanded(p: Profile, q: Profile, env: Seq<(String, String)>) -> bool {
    &&& q.provider == p.provider
    &&& q.endpoint == p.endpoint
    &&& q.region == p.region
    &&& q.path_style == p.path_style
    &&& expanded_field(p.access_key, q.access_key, env)
    &&& expanded_field(p.secret_key, q.secret_key, env)
    &&& expanded_field(p.connection_string, q.connection_string, env)
    &&& expanded_field(p.account_name, q.account_name, env)
    &&& expanded_field(p.service_account_json, q.service_account_json, env)
}

/// An optional field after expansion.
pub open spec fn expanded_field(before: Option<String>, after: Option<String>, env: Seq<(String, String)>) -> bool {
    match before {
        None => after is None,
        Some(v) => after matches Some(w) && w@ == expand_spec(v@, env),
    }
}

fn expand_field(field: &mut Option<String>, env: &Vec<(String, String)>)
    ensures
        expanded_field(*old(field), *final(field), env@),
{
    let f = |s: &str| -> (r: String)
        ensures
            r@ == expand_spec(s@, env@),
        { expand_env_vars(s, env) };
    expand_optional_field(field, f);
}

impl Profile {
    /// Expands `${VAR}` references in the access key, secret key, connection
    /// string, account name and service account JSON.
    pub fn expand_env(&mut self, env: &Vec<(String, String)>)
        ensures
            expanded(*old(self), *final(self), env@),
    {
        expand_field(&mut self.access_key, env);
        expand_field(&mut self.secret_key, env);
        expand_field(&mut self.connection_string, env);
        expand_field(&mut self.account_name, env);
        expand_field(&mut self.service_account_json, env);
    }
}

} // verus!
