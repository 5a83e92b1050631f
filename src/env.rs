//! Environments: named sets of variables and SSL settings, how environment
//! files combine, and the `{{NAME}}` substitution that uses them.

use vstd::prelude::*;
use crate::pattern::{
    compile, group, group_at, group_views, match_views, matches_all, matches_in_order,
    regex_compiles, regex_matches,
};
use crate::text::{chars_of, same_text, string_of, trim, trim_string};
use vstd::string::StringExecFns;

verus! {

broadcast use vstd::string::group_string_axioms;

/// Where a certificate or key file is.
#[derive(Debug, Clone)]
pub enum CertificateConfig {
    Path(String),
    Detailed { path: String, format: Option<String> },
}

/// The SSL settings of an environment.
#[derive(Debug, Clone)]
pub struct SslConfiguration {
    pub client_certificate: Option<CertificateConfig>,
    pub client_certificate_key: Option<CertificateConfig>,
    pub has_certificate_passphrase: Option<bool>,
    pub verify_host_certificate: Option<bool>,
}

/// The value of an environment variable, as far as substitution reads it.
#[derive(Debug, Clone)]
pub enum VarValue {
    /// A JSON string.
    Text(String),
    /// A JSON number, in its JSON spelling.
    Number(String),
    /// A JSON boolean.
    Bool(bool),
    /// Any other JSON value, which substitutes nothing.
    Other,
}

/// One environment.
#[derive(Debug, Clone)]
pub struct Environment {
    pub variables: Vec<(String, VarValue)>,
    pub ssl_config: Option<SslConfiguration>,
}

/// Index of the first pair of `s` named `k`, or `s.len()`.
pub open spec fn name_index<V>(s: Seq<(String, V)>, k: Seq<char>, i: int) -> int
    decreases s.len() - i,
{
    if 0 <= i < s.len() {
        if s[i].0@ == k {
            i
        } else {
            name_index(s, k, i + 1)
        }
    } else {
        s.len() as int
    }
}

pub proof fn lemma_name_index<V>(s: Seq<(String, V)>, k: Seq<char>, i: int)
    requires
        0 <= i <= s.len(),
    ensures
        i <= name_index(s, k, i) <= s.len(),
        name_index(s, k, i) < s.len() ==> s[name_index(s, k, i)].0@ == k,
    decreases s.len() - i,
{
    if i < s.len() && s[i].0@ != k {
        lemma_name_index(s, k, i + 1);
    }
}

/// The value stored under `k`.
pub open spec fn value_of<V>(s: Seq<(String, V)>, k: Seq<char>) -> Option<V> {
    let i = name_index(s, k, 0);
    if 0 <= i < s.len() {
        Some(s[i].1)
    } else {
        None
    }
}

/// `s` with `k` set to `v`: an existing pair keeps its place, a new name goes last.
pub open spec fn set_value<V>(s: Seq<(String, V)>, k: String, v: V) -> Seq<(String, V)> {
    let i = name_index(s, k@, 0);
    if 0 <= i < s.len() {
        s.update(i, (k, v))
    } else {
        s.push((k, v))
    }
}

/// Index of the pair named `k` in `v`.
fn position<V>(v: &Vec<(String, V)>, k: &str) -> (r: usize)
    ensures
        r == name_index(v@, k@, 0),
        r <= v@.len(),
{
    proof {
        lemma_name_index(v@, k@, 0);
    }
    let kc = chars_of(k);
    let mut i: usize = 0;
    while i < v.len()
        invariant
            i <= v@.len(),
            kc@ == k@,
            name_index(v@, k@, i as int) == name_index(v@, k@, 0),
        decreases v.len() - i,
    {
        let name = chars_of(v[i].0.as_str());
        if same_text(&name, k) {
            return i;
        }
        i = i + 1;
    }
    i
}

/// Sets `k` to `x` in `v`.
fn set_in<V>(v: &mut Vec<(String, V)>, k: String, x: V)
    ensures
        final(v)@ == set_value(old(v)@, k, x),
{
    let i = position(v, k.as_str());
    if i < v.len() {
        v.set(i, (k, x));
    } else {
        v.push((k, x));
    }
}

/// The text that a variable substitutes.
pub open spec fn var_text(v: VarValue) -> Option<Seq<char>> {
    match v {
        VarValue::Text(s) => Some(s@),
        VarValue::Number(n) => Some(n@),
        VarValue::Bool(b) => Some(
            if b {
                "true"@
            } else {
                "false"@
            },
        ),
        VarValue::Other => None,
    }
}

/// `old` with the pairs of `new` set in turn.
pub open spec fn set_all<V>(old: Seq<(String, V)>, new: Seq<(String, V)>) -> Seq<(String, V)>
    decreases new.len(),
{
    if new.len() == 0 {
        old
    } else {
        set_value(set_all(old, new.drop_last()), new.last().0, new.last().1)
    }
}

/// The model of an environment.
pub struct EnvModel {
    pub variables: Seq<(String, VarValue)>,
    pub ssl_config: Option<SslConfiguration>,
}

impl View for Environment {
    type V = EnvModel;

    open spec fn view(&self) -> EnvModel {
        EnvModel { variables: self.variables@, ssl_config: self.ssl_config }
    }
}

/// The models of named environments.
pub open spec fn env_views(v: Seq<(String, Environment)>) -> Seq<(String, EnvModel)> {
    v.map_values(|e: (String, Environment)| (e.0, e.1@))
}

/// An environment of a public file merged into one already loaded: its
/// variables win, and its SSL settings replace the old ones if it has any.
pub open spec fn merge_env(old: EnvModel, new: EnvModel) -> EnvModel {
    EnvModel {
        variables: set_all(old.variables, new.variables),
        ssl_config: if new.ssl_config is Some {
            new.ssl_config
        } else {
            old.ssl_config
        },
    }
}

/// `m` with the environments of a public file merged in, in turn.
pub open spec fn merge_all(m: Seq<(String, EnvModel)>, new: Seq<(String, EnvModel)>) -> Seq<
    (String, EnvModel),
>
    decreases new.len(),
{
    if new.len() == 0 {
        m
    } else {
        let m2 = merge_all(m, new.drop_last());
        let (k, e) = new.last();
        match value_of(m2, k@) {
            Some(o) => set_value(m2, k, merge_env(o, e)),
            None => set_value(m2, k, e),
        }
    }
}

/// The text that variable `var` of environment `env` substitutes in `m`.
pub open spec fn resolved_var(m: Seq<(String, EnvModel)>, env: Seq<char>, var: Seq<char>) -> Option<
    Seq<char>,
> {
    match value_of(m, env) {
        Some(e) => match value_of(e.variables, var) {
            Some(v) => var_text(v),
            None => None,
        },
        None => None,
    }
}

/// The expression for a `{{NAME}}` placeholder.
pub open spec fn placeholder_pattern() -> Seq<char> {
    r"\{\{([^}]+)\}\}"@
}

/// What a placeholder match `mt` of `text` becomes: the text of the variable
/// that its trimmed name names in environment `env` of `m`, or the match as
/// it is where there is none.
pub open spec fn replacement(
    m: Seq<(String, EnvModel)>,
    env: Seq<char>,
    text: Seq<char>,
    mt: (int, int, Seq<Option<Seq<char>>>),
) -> Seq<char> {
    match group(mt.2, 1) {
        Some(name) => match resolved_var(m, env, trim(name)) {
            Some(v) => v,
            None => text.subrange(mt.0, mt.1),
        },
        None => text.subrange(mt.0, mt.1),
    }
}

/// `text` from position `prev` on, with the matches `ms[k..]` replaced.
pub open spec fn substitute_from(
    m: Seq<(String, EnvModel)>,
    env: Seq<char>,
    text: Seq<char>,
    ms: Seq<(int, int, Seq<Option<Seq<char>>>)>,
    k: int,
    prev: int,
) -> Seq<char>
    decreases ms.len() - k,
{
    if 0 <= k < ms.len() {
        text.subrange(prev, ms[k].0) + replacement(m, env, text, ms[k]) + substitute_from(
            m,
            env,
            text,
            ms,
            k + 1,
            ms[k].1,
        )
    } else {
        text.subrange(prev, text.len() as int)
    }
}

/// `text` with its `{{NAME}}` placeholders resolved in environment `env` of
/// `m`; unchanged where the placeholder expression does not compile.
pub open spec fn resolved_text(m: Seq<(String, EnvModel)>, env: Seq<char>, text: Seq<char>) -> Seq<
    char,
> {
    if regex_compiles(placeholder_pattern()) {
        substitute_from(m, env, text, regex_matches(placeholder_pattern(), text), 0, 0)
    } else {
        text
    }
}

/// The loaded environments of a run.
#[derive(Debug, Clone)]
pub struct EnvironmentManager {
    environments: Vec<(String, Environment)>,
    private_env_path: Option<String>,
    base_path: String,
}

impl View for EnvironmentManager {
    type V = Seq<(String, EnvModel)>;

    closed spec fn view(&self) -> Seq<(String, EnvModel)> {
        env_views(self.environments@)
    }
}

impl EnvironmentManager {
    /// No environments yet; certificate paths resolve against `base_path`.
    pub fn new(base_path: String) -> (r: Self)
        ensures
            r@ == Seq::<(String, EnvModel)>::empty(),
            r.base_path() == base_path@,
    {
        let environments: Vec<(String, Environment)> = Vec::new();
        assert(env_views(environments@) =~= Seq::<(String, EnvModel)>::empty());
        EnvironmentManager { environments, private_env_path: None, base_path }
    }

    /// The directory that relative paths resolve against.
    pub closed spec fn base_path(&self) -> Seq<char> {
        self.base_path@
    }

    pub fn get_base_path(&self) -> (r: &String)
        ensures
            r@ == self.base_path(),
    {
        &self.base_path
    }

    /// The private environment file that was loaded, if any.
    pub fn private_env_path(&self) -> &Option<String> {
        &self.private_env_path
    }

    /// Loads the environments of a private file, read from `path`: each
    /// replaces a loaded one of the same name.
    pub fn load_private_envs(&mut self, path: String, envs: Vec<(String, Environment)>)
        ensures
            final(self)@ == set_all(old(self)@, env_views(envs@)),
            final(self).base_path() == old(self).base_path(),
    {
        let mut i: usize = 0;
        while i < envs.len()
            invariant
                i <= envs@.len(),
                self@ == set_all(old(self)@, env_views(envs@).subrange(0, i as int)),
                self.base_path() == old(self).base_path(),
            decreases envs.len() - i,
        {
            let name = envs[i].0.clone();
            let env = envs[i].1.clone_env();
            let ghost before = self.environments@;
            let k = position(&self.environments, name.as_str());
            proof {
                lemma_name_index(before, name@, 0);
                lemma_name_index(env_views(before), name@, 0);
                lemma_views_index(before, name@, 0);
            }
            if k < self.environments.len() {
                self.environments.set(k, (name, env));
            } else {
                self.environments.push((name, env));
            }
            proof {
                let sub = env_views(envs@).subrange(0, i + 1);
                assert(sub.drop_last() =~= env_views(envs@).subrange(0, i as int));
                assert(sub.last() == (envs@[i as int].0, envs@[i as int].1@));
                if k < before.len() {
                    assert(env_views(self.environments@) =~= env_views(before).update(
                        k as int,
                        (name, env@),
                    ));
                } else {
                    assert(env_views(self.environments@) =~= env_views(before).push((name, env@)));
                }
            }
            i = i + 1;
        }
        assert(env_views(envs@).subrange(0, envs@.len() as int) =~= env_views(envs@));
        self.private_env_path = Some(path);
    }

    /// Merges in the environments of a public file: the variables of one
    /// already loaded are extended, the rest are added.
    pub fn merge_env_file(&mut self, envs: Vec<(String, Environment)>)
        ensures
            final(self)@ == merge_all(old(self)@, env_views(envs@)),
            final(self).base_path() == old(self).base_path(),
    {
        let mut i: usize = 0;
        while i < envs.len()
            invariant
                i <= envs@.len(),
                self@ == merge_all(old(self)@, env_views(envs@).subrange(0, i as int)),
                self.base_path() == old(self).base_path(),
            decreases envs.len() - i,
        {
            let name = envs[i].0.clone();
            let ghost before = self.environments@;
            let k = position(&self.environments, name.as_str());
            proof {
                lemma_name_index(before, name@, 0);
                lemma_views_index(before, name@, 0);
                let sub = env_views(envs@).subrange(0, i + 1);
                assert(sub.drop_last() =~= env_views(envs@).subrange(0, i as int));
                assert(sub.last() == (envs@[i as int].0, envs@[i as int].1@));
            }
            if k < self.environments.len() {
                let (_, o) = self.environments.remove(k);
                assert(o@ == env_views(before)[k as int].1);
                let merged = merge_into(o, &envs[i].1);
                self.environments.insert(k, (name, merged));
                assert(env_views(self.environments@) =~= env_views(before).update(
                    k as int,
                    (name, merged@),
                ));
            } else {
                let env = envs[i].1.clone_env();
                self.environments.push((name, env));
                assert(env_views(self.environments@) =~= env_views(before).push((name, env@)));
            }
            i = i + 1;
        }
        assert(env_views(envs@).subrange(0, envs@.len() as int) =~= env_views(envs@));
    }

    /// The environment named `name`.
    pub fn get_environment(&self, name: &str) -> (r: Option<&Environment>)
        ensures
            match r {
                Some(e) => value_of(self@, name@) == Some(e@),
                None => value_of(self@, name@) is None,
            },
    {
        let k = position(&self.environments, name);
        proof {
            lemma_views_index(self.environments@, name@, 0);
        }
        if k < self.environments.len() {
            Some(&self.environments[k].1)
        } else {
            None
        }
    }

    /// The SSL settings of the environment named `env_name`.
    pub fn get_ssl_config(&self, env_name: &str) -> (r: Option<&SslConfiguration>)
        ensures
            match r {
                Some(c) => value_of(self@, env_name@) matches Some(e) && e.ssl_config == Some(*c),
                None => !(value_of(self@, env_name@) matches Some(e) && e.ssl_config is Some),
            },
    {
        match self.get_environment(env_name) {
            Some(e) => match &e.ssl_config {
                Some(c) => Some(c),
                None => None,
            },
            None => None,
        }
    }

    /// The text that variable `var_name` of environment `env_name` substitutes:
    /// a string as it is, a number in its JSON spelling, a boolean as `true`
    /// or `false`; nothing for other values or where there is no such variable.
    pub fn resolve_variable(&self, env_name: &str, var_name: &str) -> (r: Option<String>)
        ensures
            crate::model::opt_text(r) == resolved_var(self@, env_name@, var_name@),
    {
        match self.get_environment(env_name) {
            Some(e) => {
                let j = position(&e.variables, var_name);
                if j < e.variables.len() {
                    match &e.variables[j].1 {
                        VarValue::Text(s) => Some(s.clone()),
                        VarValue::Number(n) => Some(n.clone()),
                        VarValue::Bool(b) => if *b {
                            Some(String::from_str("true"))
                        } else {
                            Some(String::from_str("false"))
                        },
                        VarValue::Other => None,
                    }
                } else {
                    None
                }
            },
            None => None,
        }
    }

    /// `text` with each `{{NAME}}` placeholder replaced by the text of variable
    /// `NAME` (trimmed) of environment `env_name`; a placeholder without such a
    /// variable stays as it is.
    pub fn resolve_string(&self, env_name: &str, text: &str) -> (r: String)
        ensures
            r@ == resolved_text(self@, env_name@, text@),
    {
        match compile(r"\{\{([^}]+)\}\}") {
            Some(p) => {
                let ms = matches_all(&p, text);
                self.substitute_matches(env_name, text, &ms)
            },
            None => String::from_str(text),
        }
    }

    /// `text` with the placeholder matches `ms` replaced, each by the text of
    /// the variable that its group 1, trimmed, names in environment `env_name`,
    /// or left as it is where there is none.
    pub fn substitute_matches(
        &self,
        env_name: &str,
        text: &str,
        ms: &Vec<(usize, usize, Vec<Option<String>>)>,
    ) -> (r: String)
        requires
            matches_in_order(ms@, text@.len() as int),
        ensures
            r@ == substitute_from(self@, env_name@, text@, match_views(ms@), 0, 0),
    {
        let cs = chars_of(text);
        let ghost mv = match_views(ms@);
        let mut out = String::new();
        let mut k: usize = 0;
        let mut prev: usize = 0;
        while k < ms.len()
            invariant
                cs@ == text@,
                mv == match_views(ms@),
                matches_in_order(ms@, text@.len() as int),
                k <= ms@.len(),
                prev <= cs@.len(),
                k < ms@.len() ==> prev <= ms@[k as int].0,
                k > 0 ==> prev == ms@[k - 1].1,
                out@ + substitute_from(self@, env_name@, cs@, mv, k as int, prev as int)
                    == substitute_from(self@, env_name@, cs@, mv, 0, 0),
            decreases ms.len() - k,
        {
            let (s, e) = (ms[k].0, ms[k].1);
            let gap = string_of(&cs, prev, s);
            out.append(gap.as_str());
            let raw = string_of(&cs, s, e);
            let value = match group_at(&ms[k].2, 1) {
                Some(name) => {
                    let nc = chars_of(name.as_str());
                    let trimmed_name = trim_string(&nc, 0, nc.len());
                    assert(nc@.subrange(0, nc@.len() as int) =~= nc@);
                    match self.resolve_variable(env_name, trimmed_name.as_str()) {
                        Some(v) => v,
                        None => raw,
                    }
                },
                None => raw,
            };
            out.append(value.as_str());
            proof {
                assert(mv[k as int] == (s as int, e as int, group_views(ms@[k as int].2@)));
                if k + 1 < ms@.len() {
                    assert(ms@[k as int].1 <= ms@[k + 1].0);
                }
            }
            prev = e;
            k = k + 1;
        }
        let tail = string_of(&cs, prev, cs.len());
        out.append(tail.as_str());
        out
    }
}

/// An environment already loaded, with one of a public file merged in.
fn merge_into(old: Environment, new: &Environment) -> (r: Environment)
    ensures
        r@ == merge_env(old@, new@),
{
    let ghost old_vars = old.variables@;
    let mut variables = old.variables;
    let mut i: usize = 0;
    while i < new.variables.len()
        invariant
            i <= new.variables@.len(),
            variables@ == set_all(old_vars, new.variables@.subrange(0, i as int)),
        decreases new.variables.len() - i,
    {
        let name = new.variables[i].0.clone();
        let value = new.variables[i].1.clone_value();
        set_in(&mut variables, name, value);
        let ghost sub = new.variables@.subrange(0, i + 1);
        assert(sub.drop_last() =~= new.variables@.subrange(0, i as int));
        i = i + 1;
    }
    assert(new.variables@.subrange(0, new.variables@.len() as int) =~= new.variables@);
    let ssl_config = if new.ssl_config.is_some() {
        copy_ssl(&new.ssl_config)
    } else {
        old.ssl_config
    };
    Environment { variables, ssl_config }
}

/// `name_index` reads the names alone, which the views keep.
proof fn lemma_views_index(v: Seq<(String, Environment)>, k: Seq<char>, i: int)
    requires
        0 <= i <= v.len(),
    ensures
        name_index(env_views(v), k, i) == name_index(v, k, i),
    decreases v.len() - i,
{
    if i < v.len() {
        lemma_views_index(v, k, i + 1);
    }
}

impl Environment {
    /// A copy of this environment.
    pub fn clone_env(&self) -> (r: Environment)
        ensures
            r@ == self@,
    {
        let mut variables: Vec<(String, VarValue)> = Vec::new();
        let mut i: usize = 0;
        while i < self.variables.len()
            invariant
                i <= self.variables@.len(),
                variables@ == self.variables@.subrange(0, i as int),
            decreases self.variables.len() - i,
        {
            let name = self.variables[i].0.clone();
            let value = self.variables[i].1.clone_value();
            variables.push((name, value));
            i = i + 1;
            assert(variables@ =~= self.variables@.subrange(0, i as int));
        }
        assert(self.variables@.subrange(0, self.variables@.len() as int) =~= self.variables@);
        let ssl_config = copy_ssl(&self.ssl_config);
        Environment { variables, ssl_config }
    }
}

impl VarValue {
    /// A copy of this value.
    pub fn clone_value(&self) -> (r: VarValue)
        ensures
            r == *self,
    {
        match self {
            VarValue::Text(s) => VarValue::Text(s.clone()),
            VarValue::Number(n) => VarValue::Number(n.clone()),
            VarValue::Bool(b) => VarValue::Bool(*b),
            VarValue::Other => VarValue::Other,
        }
    }
}

fn copy_cert(c: &Option<CertificateConfig>) -> (r: Option<CertificateConfig>)
    ensures
        r == *c,
{
    match c {
        Some(CertificateConfig::Path(p)) => Some(CertificateConfig::Path(p.clone())),
        Some(CertificateConfig::Detailed { path, format }) => Some(
            CertificateConfig::Detailed {
                path: path.clone(),
                format: match format {
                    Some(f) => Some(f.clone()),
                    None => None,
                },
            },
        ),
        None => None,
    }
}

fn copy_ssl(s: &Option<SslConfiguration>) -> (r: Option<SslConfiguration>)
    ensures
        r == *s,
{
    match s {
        Some(c) => Some(
            SslConfiguration {
                client_certificate: copy_cert(&c.client_certificate),
                client_certificate_key: copy_cert(&c.client_certificate_key),
                has_certificate_passphrase: c.has_certificate_passphrase,
                verify_host_certificate: c.verify_host_certificate,
            },
        ),
        None => None,
    }
}

} // verus!
