//! The logins of a scraper, before a job of it runs: login values that the
//! scraper brings are stored as settings, and each API login with stored
//! values becomes a param of the job.

use crate::inmemdbnew::{setting_added, MemDbView, NewinMemDB};
use crate::sharedtypes::{DbSettingObj, LoginNeed, LoginType, ScraperParam};
use vstd::prelude::*;

verus! {

/// What a setting holds besides its name.
pub type SettingValues = (Option<String>, Option<usize>, Option<String>);

/// The values of each setting, by the setting's name: its pretty name, its
/// number and its param.
pub open spec fn named_params(v: MemDbView) -> Map<Seq<char>, SettingValues> {
    Map::new(
        |n: Seq<char>| v.setting_ids.contains_key(n),
        |n: Seq<char>|
            {
                let s = v.settings[v.setting_ids[n]];
                (s.pretty, s.num, s.param)
            },
    )
}

/// The setting that holds the namespace of the API login `name` of `key`.
pub open spec fn ns_setting(key: Seq<char>, name: Seq<char>) -> Seq<char> {
    "API_NAMESPACED_NAMESPACE_"@ + key + "_"@ + name
}

/// The setting that holds the body of the API login `name` of `key`.
pub open spec fn body_setting(key: Seq<char>, name: Seq<char>) -> Seq<char> {
    "API_NAMESPACED_BODY_"@ + key + "_"@ + name
}

/// The stored param under `n`, if any.
pub open spec fn stored(np: Map<Seq<char>, SettingValues>, n: Seq<char>) -> Option<String> {
    if np.contains_key(n) {
        np[n].2
    } else {
        None
    }
}

/// How taking the logins ends: stuck on a login it cannot make (another
/// kind than an API login, or a required one without stored values), or
/// done with the params of the job; each with the stored params by name.
pub enum LoginOutcome {
    Stuck(Map<Seq<char>, SettingValues>),
    Done(Map<Seq<char>, SettingValues>, Seq<ScraperParam>),
}

/// The logins `es` taken in order from the stored params `np` and the job
/// params `ps`. An API login whose flag is set stores the namespace and
/// body it brings; then what is stored under its two names is read. A
/// required login ends the taking, stuck when a value is missing. Any other
/// login adds a param with the stored values, when there is one.
pub open spec fn login_fold(
    np: Map<Seq<char>, SettingValues>,
    ps: Seq<ScraperParam>,
    es: Seq<(String, LoginType, LoginNeed, Option<String>, bool)>,
) -> LoginOutcome
    decreases es.len(),
{
    if es.len() == 0 {
        LoginOutcome::Done(np, ps)
    } else {
        let e = es[0];
        match e.1 {
            LoginType::ApiNamespaced(name, api_ns, api_body) => {
                let nsn = ns_setting(e.0@, name@);
                let bn = body_setting(e.0@, name@);
                let np1 = if e.4 && api_ns is Some {
                    np.insert(nsn, (None, None, api_ns))
                } else {
                    np
                };
                let np2 = if e.4 && api_body is Some {
                    np1.insert(bn, (None, None, api_body))
                } else {
                    np1
                };
                let nss = stored(np2, nsn);
                let bs = stored(np2, bn);
                if e.2 == LoginNeed::Required {
                    if nss is None || bs is None {
                        LoginOutcome::Stuck(np2)
                    } else {
                        LoginOutcome::Done(np2, ps)
                    }
                } else {
                    let ps2 = if nss is Some || bs is Some {
                        ps.push(ScraperParam::Login(LoginType::ApiNamespaced(name, nss, bs)))
                    } else {
                        ps
                    };
                    login_fold(np2, ps2, es.subrange(1, es.len() as int))
                }
            },
            _ => LoginOutcome::Stuck(np),
        }
    }
}

/// The database `w` is `v` but for its settings.
pub open spec fn same_but_settings(v: MemDbView, w: MemDbView) -> bool {
    w == (MemDbView { settings: w.settings, setting_ids: w.setting_ids, settings_max: w.settings_max, ..v })
}

proof fn lemma_named_params_added(v: MemDbView, obj: DbSettingObj)
    requires
        v.wf(),
    ensures
        named_params(setting_added(v, obj)) == named_params(v).insert(obj.name@, (obj.pretty, obj.num, obj.param)),
{
    let w = setting_added(v, obj);
    let x: SettingValues = (obj.pretty, obj.num, obj.param);
    assert(named_params(w) =~= named_params(v).insert(obj.name@, x)) by {
        assert forall|n: Seq<char>| #[trigger] named_params(w).contains_key(n) implies named_params(w)[n]
            == named_params(v).insert(obj.name@, x)[n] by {
            if n != obj.name@ {
                assert(v.setting_ids.contains_key(n));
                assert(v.settings.contains_key(v.setting_ids[n]));
                if v.setting_ids.contains_key(obj.name@) {
                    assert(v.setting_ids[n] != v.setting_ids[obj.name@]);
                }
            }
        }
    }
}

fn copy_opt_str(s: &Option<String>) -> (r: Option<String>)
    ensures
        r == *s,
{
    match s {
        Some(x) => Some(x.clone()),
        None => None,
    }
}

fn stored_param(db: &NewinMemDB, n: &String) -> (r: Option<String>)
    requires
        db.wf(),
    ensures
        r == stored(named_params(db@), n@),
{
    match db.settings_get_name(n) {
        Some(s) => copy_opt_str(&s.param),
        None => None,
    }
}

/// Takes the logins of a scraper for a job whose params are `params`:
/// `None` where a login cannot be made, else the job's params with the
/// API logins added.
pub fn login_params(
    db: &mut NewinMemDB,
    logins: &Vec<(String, LoginType, LoginNeed, Option<String>, bool)>,
    params: Vec<ScraperParam>,
) -> (res: Option<Vec<ScraperParam>>)
    requires
        old(db).wf(),
        old(db)@.settings_max + 2 * logins.len() <= usize::MAX,
    ensures
        final(db).wf(),
        same_but_settings(old(db)@, final(db)@),
        match login_fold(named_params(old(db)@), params@, logins@) {
            LoginOutcome::Stuck(np) => res is None && named_params(final(db)@) == np,
            LoginOutcome::Done(np, ps) => res matches Some(r) && r@ == ps && named_params(final(db)@) == np,
        },
{
    let ghost goal = login_fold(named_params(db@), params@, logins@);
    let ghost v0 = db@;
    let mut out = params;
    let mut i: usize = 0;
    proof {
        db.lemma_wf_view();
        assert(logins@.subrange(0, logins@.len() as int) =~= logins@);
    }
    while i < logins.len()
        invariant
            db.wf(),
            i <= logins.len(),
            db@.settings_max + 2 * (logins.len() - i) <= usize::MAX,
            same_but_settings(v0, db@),
            v0 == old(db)@,
            goal == login_fold(named_params(old(db)@), params@, logins@),
            goal == login_fold(named_params(db@), out@, logins@.subrange(i as int, logins@.len() as int)),
        decreases logins.len() - i,
    {
        proof {
            db.lemma_wf_view();
        }
        let ghost rest = logins@.subrange(i as int, logins@.len() as int);
        assert(rest[0] == logins@[i as int]);
        let e = &logins[i];
        match &e.1 {
            LoginType::ApiNamespaced(name, api_ns, api_body) => {
                let nsn = "API_NAMESPACED_NAMESPACE_".to_owned().concat(e.0.as_str()).concat("_").concat(
                    name.as_str(),
                );
                let bn = "API_NAMESPACED_BODY_".to_owned().concat(e.0.as_str()).concat("_").concat(name.as_str());
                assert(nsn@ == ns_setting(e.0@, name@));
                assert(bn@ == body_setting(e.0@, name@));
                if e.4 && api_ns.is_some() {
                    proof {
                        lemma_named_params_added(
                            db@,
                            DbSettingObj { name: nsn, pretty: None, num: None, param: *api_ns },
                        );
                    }
                    db.settings_add(nsn.clone(), None, None, copy_opt_str(api_ns));
                    proof {
                        db.lemma_wf_view();
                    }
                }
                if e.4 && api_body.is_some() {
                    proof {
                        lemma_named_params_added(
                            db@,
                            DbSettingObj { name: bn, pretty: None, num: None, param: *api_body },
                        );
                    }
                    db.settings_add(bn.clone(), None, None, copy_opt_str(api_body));
                    proof {
                        db.lemma_wf_view();
                    }
                }
                let nss = stored_param(db, &nsn);
                let bs = stored_param(db, &bn);
                if e.2 == LoginNeed::Required {
                    if nss.is_none() || bs.is_none() {
                        return None;
                    }
                    return Some(out);
                }
                if nss.is_some() || bs.is_some() {
                    out.push(ScraperParam::Login(LoginType::ApiNamespaced(name.clone(), nss, bs)));
                }
                proof {
                    assert(rest.subrange(1, rest.len() as int) =~= logins@.subrange(i + 1, logins@.len() as int));
                }
            },
            _ => {
                return None;
            },
        }
        i = i + 1;
    }
    proof {
        assert(logins@.subrange(i as int, logins@.len() as int) =~= Seq::<(String, LoginType, LoginNeed, Option<String>, bool)>::empty());
    }
    Some(out)
}


/// The value a login reads back under the setting `n`: the one it brings
/// when its flag is set and it brings one, else the one stored before.
pub open spec fn value_read(flag: bool, brought: Option<String>, np: Map<Seq<char>, SettingValues>, n: Seq<char>) -> Option<
    String,
> {
    if flag && brought is Some {
        brought
    } else {
        stored(np, n)
    }
}

proof fn lemma_login_prefix(
    np: Map<Seq<char>, SettingValues>,
    ps: Seq<ScraperParam>,
    es: Seq<(String, LoginType, LoginNeed, Option<String>, bool)>,
)
    ensures
        login_fold(np, ps, es) matches LoginOutcome::Done(_, out) ==> out.len() >= ps.len() && forall|k: int|
            0 <= k < ps.len() ==> out[k] == ps[k],
    decreases es.len(),
{
    if es.len() > 0 {
        let e = es[0];
        match e.1 {
            LoginType::ApiNamespaced(name, api_ns, api_body) => {
                let nsn = ns_setting(e.0@, name@);
                let bn = body_setting(e.0@, name@);
                let np1 = if e.4 && api_ns is Some {
                    np.insert(nsn, (None, None, api_ns))
                } else {
                    np
                };
                let np2 = if e.4 && api_body is Some {
                    np1.insert(bn, (None, None, api_body))
                } else {
                    np1
                };
                let a = stored(np2, nsn);
                let b = stored(np2, bn);
                let grown = if a is Some || b is Some {
                    ps.push(ScraperParam::Login(LoginType::ApiNamespaced(name, a, b)))
                } else {
                    ps
                };
                lemma_login_prefix(np2, grown, es.subrange(1, es.len() as int));
            },
            _ => {},
        }
    }
}

/// The setting names of a login's namespace and body differ.
proof fn lemma_setting_names_differ(key: Seq<char>, name: Seq<char>)
    ensures
        ns_setting(key, name) != body_setting(key, name),
{
    reveal_strlit("API_NAMESPACED_NAMESPACE_");
    reveal_strlit("API_NAMESPACED_BODY_");
    assert(ns_setting(key, name)[15] == 'N');
    assert(body_setting(key, name)[15] == 'B');
}

/// An optional API login with a value stored for it, after storing what it
/// brings, becomes the next param of the job: a namespace alone or a body
/// alone is enough, and each is the value read back under its setting.
pub proof fn law_optional_api_login_added(
    np: Map<Seq<char>, SettingValues>,
    ps: Seq<ScraperParam>,
    es: Seq<(String, LoginType, LoginNeed, Option<String>, bool)>,
)
    requires
        es.len() >= 1,
        es[0].1 is ApiNamespaced,
        es[0].2 == LoginNeed::Optional,
    ensures
        ({
            let e = es[0];
            let name = e.1->ApiNamespaced_0;
            let got_ns = value_read(e.4, e.1->ApiNamespaced_1, np, ns_setting(e.0@, name@));
            let got_body = value_read(e.4, e.1->ApiNamespaced_2, np, body_setting(e.0@, name@));
            login_fold(np, ps, es) matches LoginOutcome::Done(_, out) ==> ((got_ns is Some || got_body is Some)
                ==> out.len() > ps.len() && out[ps.len() as int] == ScraperParam::Login(
                LoginType::ApiNamespaced(name, got_ns, got_body),
            ))
        }),
{
    let e = es[0];
    let name = e.1->ApiNamespaced_0;
    lemma_setting_names_differ(e.0@, name@);
    let nsn = ns_setting(e.0@, name@);
    let bn = body_setting(e.0@, name@);
    let api_ns = e.1->ApiNamespaced_1;
    let api_body = e.1->ApiNamespaced_2;
    let np1 = if e.4 && api_ns is Some {
        np.insert(nsn, (None, None, api_ns))
    } else {
        np
    };
    let np2 = if e.4 && api_body is Some {
        np1.insert(bn, (None, None, api_body))
    } else {
        np1
    };
    let a = stored(np2, nsn);
    let b = stored(np2, bn);
    assert(a == value_read(e.4, api_ns, np, nsn));
    assert(b == value_read(e.4, api_body, np, bn));
    let grown = if a is Some || b is Some {
        ps.push(ScraperParam::Login(LoginType::ApiNamespaced(name, a, b)))
    } else {
        ps
    };
    lemma_login_prefix(np2, grown, es.subrange(1, es.len() as int));
    if a is Some || b is Some {
        assert(grown[ps.len() as int] == ScraperParam::Login(LoginType::ApiNamespaced(name, a, b)));
    }
}

/// A required API login ends the taking: stuck when, after storing what it
/// brings, its namespace or its body has no value, and otherwise done with
/// the job's params as they were, the logins after it left untaken.
pub proof fn law_required_api_login_ends(
    np: Map<Seq<char>, SettingValues>,
    ps: Seq<ScraperParam>,
    es: Seq<(String, LoginType, LoginNeed, Option<String>, bool)>,
)
    requires
        es.len() >= 1,
        es[0].1 is ApiNamespaced,
        es[0].2 == LoginNeed::Required,
    ensures
        ({
            let e = es[0];
            let name = e.1->ApiNamespaced_0;
            let got_ns = value_read(e.4, e.1->ApiNamespaced_1, np, ns_setting(e.0@, name@));
            let got_body = value_read(e.4, e.1->ApiNamespaced_2, np, body_setting(e.0@, name@));
            &&& (login_fold(np, ps, es) is Stuck) == (got_ns is None || got_body is None)
            &&& login_fold(np, ps, es) matches LoginOutcome::Done(_, out) ==> out == ps
        }),
{
    let e = es[0];
    let name = e.1->ApiNamespaced_0;
    lemma_setting_names_differ(e.0@, name@);
    let nsn = ns_setting(e.0@, name@);
    let bn = body_setting(e.0@, name@);
    let api_ns = e.1->ApiNamespaced_1;
    let api_body = e.1->ApiNamespaced_2;
    let np1 = if e.4 && api_ns is Some {
        np.insert(nsn, (None, None, api_ns))
    } else {
        np
    };
    let np2 = if e.4 && api_body is Some {
        np1.insert(bn, (None, None, api_body))
    } else {
        np1
    };
    assert(stored(np2, nsn) == value_read(e.4, api_ns, np, nsn));
    assert(stored(np2, bn) == value_read(e.4, api_body, np, bn));
}

/// A login of another kind than an API login cannot be made: taking the
/// logins stops there, stuck, with nothing stored.
pub proof fn law_other_login_stuck(
    np: Map<Seq<char>, SettingValues>,
    ps: Seq<ScraperParam>,
    es: Seq<(String, LoginType, LoginNeed, Option<String>, bool)>,
)
    requires
        es.len() >= 1,
        !(es[0].1 is ApiNamespaced),
    ensures
        login_fold(np, ps, es) == LoginOutcome::Stuck(np),
{
}

/// What an API login brings with its flag set is stored under its setting
/// names, whether it then ends the taking or not: when it is the last login,
/// the stored params hold the namespace and the body it brought.
pub proof fn law_brought_login_stored(
    np: Map<Seq<char>, SettingValues>,
    ps: Seq<ScraperParam>,
    e: (String, LoginType, LoginNeed, Option<String>, bool),
)
    requires
        e.1 is ApiNamespaced,
        e.4,
    ensures
        ({
            let name = e.1->ApiNamespaced_0;
            let out_np = match login_fold(np, ps, seq![e]) {
                LoginOutcome::Stuck(m) => m,
                LoginOutcome::Done(m, _) => m,
            };
            &&& e.1->ApiNamespaced_1 matches Some(x) ==> out_np.contains_key(ns_setting(e.0@, name@))
                && out_np[ns_setting(e.0@, name@)] == (None::<String>, None::<usize>, Some(x))
            &&& e.1->ApiNamespaced_2 matches Some(x) ==> out_np.contains_key(body_setting(e.0@, name@))
                && out_np[body_setting(e.0@, name@)] == (None::<String>, None::<usize>, Some(x))
        }),
{
    let name = e.1->ApiNamespaced_0;
    lemma_setting_names_differ(e.0@, name@);
    let es = seq![e];
    assert(es[0] == e);
    let rest = es.subrange(1, 1);
    assert(rest =~= Seq::<(String, LoginType, LoginNeed, Option<String>, bool)>::empty());
    let nsn = ns_setting(e.0@, name@);
    let bn = body_setting(e.0@, name@);
    let api_ns = e.1->ApiNamespaced_1;
    let api_body = e.1->ApiNamespaced_2;
    let np1 = if api_ns is Some {
        np.insert(nsn, (None, None, api_ns))
    } else {
        np
    };
    let np2 = if api_body is Some {
        np1.insert(bn, (None, None, api_body))
    } else {
        np1
    };
    let a = stored(np2, nsn);
    let b = stored(np2, bn);
    let grown = if a is Some || b is Some {
        ps.push(ScraperParam::Login(LoginType::ApiNamespaced(name, a, b)))
    } else {
        ps
    };
    assert(login_fold(np2, grown, rest) == LoginOutcome::Done(np2, grown));
    let out_np = match login_fold(np, ps, es) {
        LoginOutcome::Stuck(m) => m,
        LoginOutcome::Done(m, _) => m,
    };
    assert(out_np == np2);
}

} // verus!
