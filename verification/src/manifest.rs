use vstd::prelude::*;

use crate::error::Error;
use crate::jsonval::{
    json_as_array, json_as_i64, json_as_str, json_get, json_model, json_parse, json_parsed,
    JsonValueModel,
};
use crate::strutil::{find_char, find_char_from, lemma_find_char_from, push_char, strings_view};

verus! {

// The declarative launch manifest and its template resolution: `{name}`
// placeholders in the target and argument templates are substituted from the
// runtime variable context in one left-to-right pass; substituted values are
// not rescanned. A placeholder whose name is not bound fails the resolution.

/// A parsed launch manifest.
#[derive(Debug)]
pub struct Manifest {
    pub manifest_version: i32,
    pub target: String,
    pub target_arguments: Vec<TargetArgument>,
    pub capabilities: Vec<String>,
}

/// One group of argument templates.
#[derive(Debug)]
pub struct TargetArgument {
    pub value: Vec<String>,
}

/// The manifest together with the variable context for one launch
/// resolution. Later settings of the same variable win.
#[derive(Debug)]
pub struct ManifestManager {
    pub manifest: Manifest,
    pub variables: Vec<(String, String)>,
}

/// The mapping a variable list denotes: each name maps to the value it was
/// last set to.
pub open spec fn vars_map(v: Seq<(String, String)>) -> Map<Seq<char>, Seq<char>>
    decreases v.len(),
{
    if v.len() == 0 {
        Map::empty()
    } else {
        vars_map(v.drop_last()).insert(v.last().0@, v.last().1@)
    }
}

proof fn lemma_vars_map_found(v: Seq<(String, String)>, name: Seq<char>, i: int)
    requires
        0 <= i < v.len(),
        v[i].0@ == name,
        forall|k: int| i < k < v.len() ==> v[k].0@ != name,
    ensures
        vars_map(v).contains_key(name),
        vars_map(v)[name] == v[i].1@,
    decreases v.len(),
{
    if i < v.len() - 1 {
        lemma_vars_map_found(v.drop_last(), name, i);
    }
}

proof fn lemma_vars_map_absent(v: Seq<(String, String)>, name: Seq<char>)
    requires
        forall|k: int| 0 <= k < v.len() ==> v[k].0@ != name,
    ensures
        !vars_map(v).contains_key(name),
    decreases v.len(),
{
    if v.len() > 0 {
        lemma_vars_map_absent(v.drop_last(), name);
    }
}

/// The substitution of `t` from position `pos` on: literal characters are
/// kept; at `{` with a later `}`, the name between them must be bound and
/// its value is emitted without being rescanned; a `{` with no `}` anywhere
/// after it leaves the remainder literal. `None` exactly when an unbound
/// placeholder is met.
pub open spec fn subst_from(t: Seq<char>, vars: Map<Seq<char>, Seq<char>>, pos: int) -> Option<
    Seq<char>,
>
    decreases t.len() - pos,
        when 0 <= pos <= t.len()
        via subst_from_decreases
{
    if pos >= t.len() {
        Some(Seq::empty())
    } else if t[pos] == '{' {
        let j = find_char_from(t, '}', pos + 1);
        if j == t.len() {
            Some(t.skip(pos))
        } else {
            let name = t.subrange(pos + 1, j);
            if vars.contains_key(name) {
                match subst_from(t, vars, j + 1) {
                    Some(rest) => Some(vars[name] + rest),
                    None => None,
                }
            } else {
                None
            }
        }
    } else {
        match subst_from(t, vars, pos + 1) {
            Some(rest) => Some(seq![t[pos]] + rest),
            None => None,
        }
    }
}

#[via_fn]
proof fn subst_from_decreases(t: Seq<char>, vars: Map<Seq<char>, Seq<char>>, pos: int) {
    if 0 <= pos < t.len() {
        lemma_find_char_from(t, '}', pos + 1);
    }
}

/// The substitution of a whole template.
pub open spec fn substitute(t: Seq<char>, vars: Map<Seq<char>, Seq<char>>) -> Option<Seq<char>> {
    subst_from(t, vars, 0)
}

/// The substitution of the templates from index `i` on: defined exactly when
/// every one of them substitutes, yielding the results in order.
pub open spec fn resolve_all_from(
    templates: Seq<Seq<char>>,
    vars: Map<Seq<char>, Seq<char>>,
    i: int,
) -> Option<Seq<Seq<char>>>
    decreases templates.len() - i,
        when 0 <= i <= templates.len()
{
    if i >= templates.len() {
        Some(Seq::empty())
    } else {
        match substitute(templates[i], vars) {
            Some(h) => match resolve_all_from(templates, vars, i + 1) {
                Some(rest) => Some(seq![h] + rest),
                None => None,
            },
            None => None,
        }
    }
}

/// The substitution of a whole template list.
pub open spec fn resolve_all(templates: Seq<Seq<char>>, vars: Map<Seq<char>, Seq<char>>) -> Option<
    Seq<Seq<char>>,
> {
    resolve_all_from(templates, vars, 0)
}

/// The substitution of the argument groups from index `i` on: every value of
/// every group must substitute, and the results keep group order and
/// within-group order.
pub open spec fn resolve_groups_from(
    groups: Seq<Seq<Seq<char>>>,
    vars: Map<Seq<char>, Seq<char>>,
    i: int,
) -> Option<Seq<Seq<char>>>
    decreases groups.len() - i,
        when 0 <= i <= groups.len()
{
    if i >= groups.len() {
        Some(Seq::empty())
    } else {
        match resolve_all(groups[i], vars) {
            Some(h) => match resolve_groups_from(groups, vars, i + 1) {
                Some(rest) => Some(h + rest),
                None => None,
            },
            None => None,
        }
    }
}

/// The substitution of all argument groups.
pub open spec fn resolve_groups(
    groups: Seq<Seq<Seq<char>>>,
    vars: Map<Seq<char>, Seq<char>>,
) -> Option<Seq<Seq<char>>> {
    resolve_groups_from(groups, vars, 0)
}

/// The nested character sequences of the argument groups.
pub open spec fn groups_view(args: Seq<TargetArgument>) -> Seq<Seq<Seq<char>>> {
    args.map(|i: int, g: TargetArgument| strings_view(g.value@))
}

/// Whether a JSON document has the shape of a launch manifest: an object
/// whose `manifest_version` is an integer fitting 32 bits, whose `target` is
/// a string, whose `target_arguments` is an array of objects each holding a
/// `value` array of strings, and whose `capabilities` is an array of
/// strings.
pub open spec fn manifest_model_ok(m: JsonValueModel) -> bool {
    &&& m is Obj
    &&& m->Obj_0.contains_key("manifest_version"@)
    &&& m->Obj_0["manifest_version"@] is Int
    &&& i32::MIN <= m->Obj_0["manifest_version"@]->Int_0 <= i32::MAX
    &&& m->Obj_0.contains_key("target"@)
    &&& m->Obj_0["target"@] is Text
    &&& m->Obj_0.contains_key("target_arguments"@)
    &&& m->Obj_0["target_arguments"@] is Arr
    &&& (forall|i: int|
        0 <= i < m->Obj_0["target_arguments"@]->Arr_0.len() ==> group_model_ok(
            #[trigger] m->Obj_0["target_arguments"@]->Arr_0[i],
        ))
    &&& m->Obj_0.contains_key("capabilities"@)
    &&& m->Obj_0["capabilities"@] is Arr
    &&& (forall|i: int|
        0 <= i < m->Obj_0["capabilities"@]->Arr_0.len()
            ==> #[trigger] m->Obj_0["capabilities"@]->Arr_0[i] is Text)
}

/// Whether one argument group in a JSON document has the expected shape.
pub open spec fn group_model_ok(g: JsonValueModel) -> bool {
    &&& g is Obj
    &&& g->Obj_0.contains_key("value"@)
    &&& g->Obj_0["value"@] is Arr
    &&& (forall|j: int|
        0 <= j < g->Obj_0["value"@]->Arr_0.len() ==> #[trigger] g->Obj_0["value"@]->Arr_0[j]
            is Text)
}

/// Whether a parsed manifest carries exactly the fields of a JSON document
/// of manifest shape.
pub open spec fn manifest_matches_model(man: Manifest, m: JsonValueModel) -> bool {
    &&& man.manifest_version as int == m->Obj_0["manifest_version"@]->Int_0 as int
    &&& man.target@ == m->Obj_0["target"@]->Text_0
    &&& man.target_arguments@.len() == m->Obj_0["target_arguments"@]->Arr_0.len()
    &&& (forall|i: int|
        0 <= i < man.target_arguments@.len() ==> group_matches_model(
            #[trigger] man.target_arguments@[i],
            m->Obj_0["target_arguments"@]->Arr_0[i],
        ))
    &&& man.capabilities@.len() == m->Obj_0["capabilities"@]->Arr_0.len()
    &&& (forall|i: int|
        0 <= i < man.capabilities@.len() ==> #[trigger] man.capabilities@[i]@ == m->Obj_0[
            "capabilities"@
        ]->Arr_0[i]->Text_0)
}

/// Whether one parsed argument group carries exactly the strings of its JSON
/// counterpart.
pub open spec fn group_matches_model(t: TargetArgument, g: JsonValueModel) -> bool {
    &&& t.value@.len() == g->Obj_0["value"@]->Arr_0.len()
    &&& (forall|j: int|
        0 <= j < t.value@.len() ==> #[trigger] t.value@[j]@ == g->Obj_0["value"@]->Arr_0[j]->Text_0)
}

/// Collects the strings of a JSON array whose items must all be strings.
fn extract_string_array(arr: &Vec<serde_json::Value>) -> (r: Result<Vec<String>, Error>)
    ensures
        r is Ok <==> (forall|i: int| 0 <= i < arr@.len() ==> json_model(#[trigger] arr@[i])
            is Text),
        r is Ok ==> r->Ok_0@.len() == arr@.len() && (forall|i: int|
            0 <= i < arr@.len() ==> #[trigger] r->Ok_0@[i]@ == json_model(arr@[i])->Text_0),
        r is Err ==> r->Err_0 is Manifest,
{
    let n = arr.len();
    let mut out: Vec<String> = Vec::new();
    let mut i: usize = 0;
    while i < n
        invariant
            n == arr@.len(),
            0 <= i <= n,
            out@.len() == i,
            forall|k: int| 0 <= k < i ==> json_model(#[trigger] arr@[k]) is Text,
            forall|k: int| 0 <= k < i ==> #[trigger] out@[k]@ == json_model(arr@[k])->Text_0,
        decreases n - i,
    {
        match json_as_str(&arr[i]) {
            Some(s) => {
                out.push(s.to_owned());
            },
            None => {
                return Err(Error::Manifest("manifest field is not a string".to_owned()));
            },
        }
        i = i + 1;
    }
    Ok(out)
}

impl ManifestManager {
    /// Parses a manifest from its JSON text and starts with an empty
    /// variable context. Malformed JSON is a JSON error; a document without
    /// the required fields, or with a field of the wrong type, is a manifest
    /// error.
    #[verifier::loop_isolation(false)]
    pub fn new(manifest_content: &str) -> (r: Result<Self, Error>)
        ensures
            r is Ok <==> (json_parsed(manifest_content@) matches Some(m) && manifest_model_ok(m)),
            r is Ok ==> {
                &&& manifest_matches_model(r->Ok_0.manifest, json_parsed(manifest_content@)->0)
                &&& r->Ok_0.variables@.len() == 0
            },
            r is Err ==> (r->Err_0 is Json <==> json_parsed(manifest_content@) is None),
            r is Err ==> r->Err_0 is Json || r->Err_0 is Manifest,
    {
        let value = match json_parse(manifest_content) {
            Ok(v) => v,
            Err(e) => {
                return Err(e);
            },
        };
        let version_value = match json_get(&value, "manifest_version") {
            Some(v) => v,
            None => {
                return Err(Error::Manifest("manifest_version is missing".to_owned()));
            },
        };
        let version64 = match json_as_i64(version_value) {
            Some(n) => n,
            None => {
                return Err(Error::Manifest("manifest_version is not an integer".to_owned()));
            },
        };
        if version64 < i32::MIN as i64 || version64 > i32::MAX as i64 {
            return Err(Error::Manifest("manifest_version is out of range".to_owned()));
        }
        let target_value = match json_get(&value, "target") {
            Some(v) => v,
            None => {
                return Err(Error::Manifest("target is missing".to_owned()));
            },
        };
        let target = match json_as_str(target_value) {
            Some(s) => s.to_owned(),
            None => {
                return Err(Error::Manifest("target is not a string".to_owned()));
            },
        };
        let args_value = match json_get(&value, "target_arguments") {
            Some(v) => v,
            None => {
                return Err(Error::Manifest("target_arguments is missing".to_owned()));
            },
        };
        let args_array = match json_as_array(args_value) {
            Some(a) => a,
            None => {
                return Err(Error::Manifest("target_arguments is not an array".to_owned()));
            },
        };
        let ghost args_model = json_model(*args_value)->Arr_0;
        let mut target_arguments: Vec<TargetArgument> = Vec::new();
        let n = args_array.len();
        let mut i: usize = 0;
        while i < n
            invariant
                n == args_array@.len(),
                0 <= i <= n,
                n == args_model.len(),
                forall|k: int|
                    0 <= k < n ==> json_model(#[trigger] args_array@[k]) == args_model[k],
                target_arguments@.len() == i,
                forall|k: int| 0 <= k < i ==> group_model_ok(#[trigger] args_model[k]),
                forall|k: int|
                    0 <= k < i ==> group_matches_model(
                        #[trigger] target_arguments@[k],
                        args_model[k],
                    ),
            decreases n - i,
        {
            let group = &args_array[i];
            let value_field = match json_get(group, "value") {
                Some(v) => v,
                None => {
                    return Err(
                        Error::Manifest("target_arguments entry has no value field".to_owned()),
                    );
                },
            };
            let value_array = match json_as_array(value_field) {
                Some(a) => a,
                None => {
                    return Err(Error::Manifest("value field is not an array".to_owned()));
                },
            };
            let strings = match extract_string_array(value_array) {
                Ok(s) => s,
                Err(e) => {
                    return Err(e);
                },
            };
            proof {
                let gm = json_model(args_array@[i as int]);
                let vf = json_model(*value_field);
                assert(vf == gm->Obj_0["value"@]);
                assert forall|j: int| 0 <= j < vf->Arr_0.len() implies #[trigger] vf->Arr_0[j]
                    is Text by {
                    assert(json_model(value_array@[j]) == vf->Arr_0[j]);
                }
                assert(group_model_ok(gm));
                assert forall|j: int| 0 <= j < strings@.len() implies #[trigger] strings@[j]@
                    == vf->Arr_0[j]->Text_0 by {
                    assert(json_model(value_array@[j]) == vf->Arr_0[j]);
                }
                assert(group_matches_model(TargetArgument { value: strings }, gm));
            }
            target_arguments.push(TargetArgument { value: strings });
            i = i + 1;
        }
        let caps_value = match json_get(&value, "capabilities") {
            Some(v) => v,
            None => {
                return Err(Error::Manifest("capabilities is missing".to_owned()));
            },
        };
        let caps_array = match json_as_array(caps_value) {
            Some(a) => a,
            None => {
                return Err(Error::Manifest("capabilities is not an array".to_owned()));
            },
        };
        let capabilities = match extract_string_array(caps_array) {
            Ok(s) => s,
            Err(e) => {
                return Err(e);
            },
        };
        proof {
            let pm = json_parsed(manifest_content@)->0;
            let cf = json_model(*caps_value);
            assert(cf == pm->Obj_0["capabilities"@]);
            assert forall|k: int| 0 <= k < cf->Arr_0.len() implies #[trigger] cf->Arr_0[k]
                is Text by {
                assert(json_model(caps_array@[k]) == cf->Arr_0[k]);
            }
            assert forall|k: int| 0 <= k < capabilities@.len() implies #[trigger] capabilities@[k]@
                == cf->Arr_0[k]->Text_0 by {
                assert(json_model(caps_array@[k]) == cf->Arr_0[k]);
            }
            assert(manifest_model_ok(pm));
        }
        Ok(
            ManifestManager {
                manifest: Manifest {
                    manifest_version: version64 as i32,
                    target,
                    target_arguments,
                    capabilities,
                },
                variables: Vec::new(),
            },
        )
    }

    /// Binds a variable for the placeholder resolution; a later setting of
    /// the same name overrides an earlier one.
    pub fn set_variable(&mut self, key: &str, value: String)
        ensures
            vars_map(final(self).variables@) == vars_map(old(self).variables@).insert(
                key@,
                value@,
            ),
            final(self).manifest == old(self).manifest,
    {
        let ghost prev = self.variables@;
        self.variables.push((key.to_owned(), value));
        proof {
            assert(self.variables@.drop_last() =~= prev);
        }
    }

    /// Looks up the value a variable was last set to.
    fn lookup(&self, name: &str) -> (r: Option<&String>)
        ensures
            r is Some <==> vars_map(self.variables@).contains_key(name@),
            r is Some ==> r->0@ == vars_map(self.variables@)[name@],
    {
        let n = self.variables.len();
        let mut i: usize = n;
        while i > 0
            invariant
                n == self.variables@.len(),
                0 <= i <= n,
                forall|k: int| i <= k < n ==> #[trigger] self.variables@[k].0@ != name@,
            decreases i,
    {
            i = i - 1;
            if crate::strutil::str_eq(self.variables[i].0.as_str(), name) {
                proof {
                    lemma_vars_map_found(self.variables@, name@, i as int);
                }
                return Some(&self.variables[i].1);
            }
        }
        proof {
            lemma_vars_map_absent(self.variables@, name@);
        }
        None
    }

    /// Substitutes every `{name}` placeholder in `input` from the variable
    /// context in one left-to-right pass. Fails with a manifest error
    /// exactly when a placeholder names an unbound variable.
    pub fn resolve_variables(&self, input: &str) -> (r: Result<String, Error>)
        ensures
            r is Ok <==> substitute(input@, vars_map(self.variables@)) is Some,
            r is Ok ==> r->Ok_0@ == substitute(input@, vars_map(self.variables@))->0,
            r is Err ==> r->Err_0 is Manifest,
    {
        let ghost m = vars_map(self.variables@);
        let n = input.unicode_len();
        let mut out = String::new();
        let mut pos: usize = 0;
        while pos < n
            invariant
                n == input@.len(),
                0 <= pos <= n,
                m == vars_map(self.variables@),
                subst_from(input@, m, 0) == (match subst_from(input@, m, pos as int) {
                    Some(rest) => Some(out@ + rest),
                    None => None::<Seq<char>>,
                }),
            decreases n - pos,
        {
            let c = input.get_char(pos);
            if c == '{' {
                proof {
                    lemma_find_char_from(input@, '}', pos + 1);
                }
                let j = find_char(input, '}', pos + 1);
                if j == n {
                    let rest = input.substring_char(pos, n);
                    out.append(rest);
                    proof {
                        assert(input@.subrange(pos as int, n as int) =~= input@.skip(pos as int));
                        assert(subst_from(input@, m, pos as int) == Some(input@.skip(pos as int)));
                        assert(subst_from(input@, m, n as int) == Some(Seq::<char>::empty()));
                        assert(out@ + Seq::<char>::empty() =~= out@);
                    }
                    pos = n;
                } else {
                    let name = input.substring_char(pos + 1, j);
                    proof {
                        assert(name@ == input@.subrange(pos + 1, j as int));
                    }
                    match self.lookup(name) {
                        Some(val) => {
                            let ghost before = out@;
                            out.append(val.as_str());
                            proof {
                                let rest_opt = subst_from(input@, m, j + 1);
                                match rest_opt {
                                    Some(rest) => {
                                        assert((out@ + rest) =~= (before + (m[name@] + rest)));
                                    },
                                    None => {},
                                }
                            }
                            pos = j + 1;
                        },
                        None => {
                            return Err(
                                Error::Manifest("unresolved variables in manifest".to_owned()),
                            );
                        },
                    }
                }
            } else {
                let ghost before = out@;
                push_char(&mut out, c);
                proof {
                    let rest_opt = subst_from(input@, m, pos + 1);
                    match rest_opt {
                        Some(rest) => {
                            assert(out@ + rest =~= before + (seq![input@[pos as int]] + rest));
                        },
                        None => {},
                    }
                }
                pos = pos + 1;
            }
        }
        proof {
            assert(subst_from(input@, m, n as int) == Some(Seq::<char>::empty()));
            assert(out@ + Seq::<char>::empty() =~= out@);
        }
        Ok(out)
    }

    /// Resolves the manifest's launch target. Fails with a manifest error
    /// exactly when the target template holds an unbound placeholder.
    pub fn get_target(&self) -> (r: Result<String, Error>)
        ensures
            r is Ok <==> substitute(self.manifest.target@, vars_map(self.variables@)) is Some,
            r is Ok ==> r->Ok_0@ == substitute(self.manifest.target@, vars_map(self.variables@))->0,
            r is Err ==> r->Err_0 is Manifest,
    {
        self.resolve_variables(self.manifest.target.as_str())
    }

    /// Resolves every value of every argument group, flattening the groups
    /// in order. Fails with a manifest error exactly when any value holds an
    /// unbound placeholder.
    pub fn get_arguments(&self) -> (r: Result<Vec<String>, Error>)
        ensures
            r is Ok <==> resolve_groups(
                groups_view(self.manifest.target_arguments@),
                vars_map(self.variables@),
            ) is Some,
            r is Ok ==> strings_view(r->Ok_0@) == resolve_groups(
                groups_view(self.manifest.target_arguments@),
                vars_map(self.variables@),
            )->0,
            r is Err ==> r->Err_0 is Manifest,
    {
        let ghost m = vars_map(self.variables@);
        let ghost gv = groups_view(self.manifest.target_arguments@);
        let mut out: Vec<String> = Vec::new();
        let n = self.manifest.target_arguments.len();
        let mut i: usize = 0;
        while i < n
            invariant
                n == self.manifest.target_arguments@.len(),
                0 <= i <= n,
                m == vars_map(self.variables@),
                gv == groups_view(self.manifest.target_arguments@),
                resolve_groups(gv, m) == (match resolve_groups_from(gv, m, i as int) {
                    Some(rest) => Some(strings_view(out@) + rest),
                    None => None::<Seq<Seq<char>>>,
                }),
            decreases n - i,
        {
            let group = &self.manifest.target_arguments[i];
            let ghost prev_out = out@;
            let nv = group.value.len();
            let mut j: usize = 0;
            while j < nv
                invariant
                    nv == group.value@.len(),
                    0 <= j <= nv,
                    m == vars_map(self.variables@),
                    gv == groups_view(self.manifest.target_arguments@),
                    0 <= i < n,
                    n == self.manifest.target_arguments@.len(),
                    group == &self.manifest.target_arguments[i as int],
                    gv[i as int] == strings_view(group.value@),
                    resolve_groups(gv, m) == (match resolve_groups_from(gv, m, i as int) {
                        Some(rest) => Some(strings_view(prev_out) + rest),
                        None => None::<Seq<Seq<char>>>,
                    }),
                    out@.len() >= prev_out.len(),
                    prev_out == out@.take(prev_out.len() as int),
                    resolve_all(gv[i as int], m) == (match resolve_all_from(
                        gv[i as int],
                        m,
                        j as int,
                    ) {
                        Some(rest) => Some(strings_view(out@.skip(prev_out.len() as int)) + rest),
                        None => None::<Seq<Seq<char>>>,
                    }),
                decreases nv - j,
            {
                let template = &group.value[j];
                proof {
                    assert(gv[i as int][j as int] == template@);
                }
                match self.resolve_variables(template.as_str()) {
                    Ok(resolved) => {
                        let ghost mid_out = out@;
                        out.push(resolved);
                        proof {
                            assert(out@.take(prev_out.len() as int) =~= prev_out);
                            let rest_opt = resolve_all_from(gv[i as int], m, j + 1);
                            match rest_opt {
                                Some(rest) => {
                                    assert(strings_view(out@.skip(prev_out.len() as int)) =~= (
                                    strings_view(mid_out.skip(prev_out.len() as int)).push(
                                        substitute(gv[i as int][j as int], m)->0,
                                    )));
                                    assert(strings_view(out@.skip(prev_out.len() as int)) + rest
                                        =~= strings_view(mid_out.skip(prev_out.len() as int)) + (
                                    seq![substitute(gv[i as int][j as int], m)->0] + rest));
                                },
                                None => {},
                            }
                        }
                    },
                    Err(e) => {
                        proof {
                            assert(resolve_all(gv[i as int], m) is None);
                            assert(resolve_groups(gv, m) is None);
                        }
                        return Err(e);
                    },
                }
                j = j + 1;
            }
            proof {
                assert(resolve_all_from(gv[i as int], m, nv as int) == Some(
                    Seq::<Seq<char>>::empty(),
                ));
                assert(strings_view(out@.skip(prev_out.len() as int)) + Seq::<Seq<char>>::empty()
                    =~= strings_view(out@.skip(prev_out.len() as int)));
                assert(resolve_all(gv[i as int], m) == Some(
                    strings_view(out@.skip(prev_out.len() as int)),
                ));
                let rest_opt = resolve_groups_from(gv, m, i + 1);
                match rest_opt {
                    Some(rest) => {
                        assert(strings_view(out@) =~= strings_view(prev_out) + strings_view(
                            out@.skip(prev_out.len() as int),
                        ));
                        assert(strings_view(out@) + rest =~= strings_view(prev_out) + (
                        strings_view(out@.skip(prev_out.len() as int)) + rest));
                    },
                    None => {},
                }
            }
            i = i + 1;
        }
        proof {
            assert(resolve_groups_from(gv, m, n as int) == Some(Seq::<Seq<char>>::empty()));
            assert(strings_view(out@) + Seq::<Seq<char>>::empty() =~= strings_view(out@));
        }
        Ok(out)
    }
}

} // verus!
