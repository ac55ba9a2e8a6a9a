//! The configuration of a run: where to log, what to log, and what the
//! actions and the report sinks are configured with.

use vstd::prelude::*;
use crate::text::str_eq;
use crate::value::find_member;
use crate::value::lemma_members_push;
use crate::value::members_view;
use crate::value::Json;
use crate::value::JsonView;

verus! {

/// The configuration document, and what stands in for its absent parts.
#[derive(Debug)]
pub struct Config {
    conf: Json,
    report_default: Json,
}

/// The member of an object under a key; null where the document is no
/// object or has no such member.
pub open spec fn member(v: JsonView, key: Seq<char>) -> JsonView {
    match v {
        JsonView::Object(m) => if m.contains_key(key) {
            m[key]
        } else {
            JsonView::Null
        },
        _ => JsonView::Null,
    }
}

/// Whether a document is an object that has a member under a key.
pub open spec fn has_member(v: JsonView, key: Seq<char>) -> bool {
    v matches JsonView::Object(m) && m.contains_key(key)
}

/// Where the log goes unless the configuration says otherwise.
pub open spec fn default_log_path() -> Seq<char> {
    "/data/chord/job/output/cmd.log"@
}

/// What the report sinks are configured with unless the configuration says
/// otherwise: `{"csv": {"dir": "/data/chord/job/output"}}`.
pub open spec fn default_report() -> JsonView {
    JsonView::Object(
        Map::<Seq<char>, JsonView>::empty().insert(
            "csv"@,
            JsonView::Object(
                Map::<Seq<char>, JsonView>::empty().insert("dir"@, JsonView::Str("/data/chord/job/output"@)),
            ),
        ),
    )
}

/// The log level of each target: the members of `log.level` that are
/// strings.
pub open spec fn levels(conf: JsonView) -> Map<Seq<char>, Seq<char>> {
    let level = member(member(conf, "log"@), "level"@);
    Map::new(|k: Seq<char>| has_member(level, k) && member(level, k) is Str, |k: Seq<char>| member(level, k)->Str_0)
}

/// Whether a list of pairs binds a key.
pub open spec fn binds(pairs: Seq<(String, String)>, key: Seq<char>) -> bool {
    exists|j: int| 0 <= j < pairs.len() && (#[trigger] pairs[j]).0@ == key
}

/// A key that a list of members binds is the key of one of them.
pub proof fn lemma_member_exists(members: Seq<(String, Json)>, key: Seq<char>)
    requires
        members_view(members).contains_key(key),
    ensures
        exists|i: int| 0 <= i < members.len() && (#[trigger] members[i]).0@ == key,
    decreases members.len(),
{
    if members.len() > 0 {
        if members.last().0@ == key {
            assert(members[members.len() - 1].0@ == key);
        } else {
            lemma_member_exists(members.drop_last(), key);
            let i = choose|i: int| 0 <= i < members.drop_last().len() && (#[trigger] members.drop_last()[i]).0@ == key;
            assert(members[i].0@ == key);
        }
    }
}

fn bound(pairs: &Vec<(String, String)>, key: &str) -> (b: bool)
    ensures
        b == binds(pairs@, key@),
{
    let mut j: usize = 0;
    while j < pairs.len()
        invariant
            j <= pairs.len(),
            forall|k: int| 0 <= k < j ==> (#[trigger] pairs@[k]).0@ != key@,
        decreases pairs.len() - j,
    {
        if str_eq(pairs[j].0.as_str(), key) {
            return true;
        }
        j += 1;
    }
    false
}

impl Config {
    /// The document that the configuration was made of.
    pub closed spec fn conf(&self) -> JsonView {
        self.conf@
    }

    /// What stands in where the document says nothing of the report sinks.
    pub closed spec fn fallback(&self) -> JsonView {
        self.report_default@
    }

    /// Whether the configuration is as [`Config::new`] makes it.
    pub open spec fn wf(&self) -> bool {
        self.fallback() == default_report()
    }

    /// The configuration that a document holds.
    pub fn new(conf: Json) -> (c: Config)
        ensures
            c.conf() == conf@,
            c.wf(),
    {
        let mut csv: Vec<(String, Json)> = Vec::new();
        let dir = ("dir".to_owned(), Json::String("/data/chord/job/output".to_owned()));
        proof {
            lemma_members_push(csv@, dir);
        }
        csv.push(dir);
        let mut report: Vec<(String, Json)> = Vec::new();
        let member = ("csv".to_owned(), Json::Object(csv));
        proof {
            lemma_members_push(report@, member);
        }
        report.push(member);
        Config { conf, report_default: Json::Object(report) }
    }

    /// Where the log goes: `log.path` where that is a string, else
    /// `/data/chord/job/output/cmd.log`.
    pub fn log_path(&self) -> (path: &str)
        ensures
            path@ == match member(member(self.conf(), "log"@), "path"@) {
                JsonView::Str(s) => s,
                _ => default_log_path(),
            },
    {
        let found = match self.conf.get("log") {
            Some(log) => match log.get("path") {
                Some(path) => path.as_str(),
                None => None,
            },
            None => None,
        };
        match found {
            Some(path) => path,
            None => "/data/chord/job/output/cmd.log",
        }
    }

    /// The log level of each target: one pair for each member of `log.level`
    /// that is a string, and no target twice.
    pub fn log_level(&self) -> (pairs: Vec<(String, String)>)
        ensures
            forall|k: Seq<char>| binds(pairs@, k) <==> levels(self.conf()).contains_key(k),
            forall|j: int|
                0 <= j < pairs.len() ==> levels(self.conf())[(#[trigger] pairs@[j]).0@] == pairs@[j].1@,
            forall|i: int, j: int|
                0 <= i < j < pairs.len() ==> (#[trigger] pairs@[i]).0@ != (#[trigger] pairs@[j]).0@,
    {
        let mut pairs: Vec<(String, String)> = Vec::new();
        let level = match self.conf.get("log") {
            Some(log) => match log.get("level") {
                Some(level) => level.as_object(),
                None => None,
            },
            None => None,
        };
        let ghost wanted = levels(self.conf());
        match level {
            Some(members) => {
                let mut i: usize = 0;
                while i < members.len()
                    invariant
                        i <= members.len(),
                        wanted == levels(self.conf()),
                        member(member(self.conf(), "log"@), "level"@) == JsonView::Object(members_view(members@)),
                        forall|k: Seq<char>| binds(pairs@, k) ==> wanted.contains_key(k),
                        forall|j: int| 0 <= j < pairs.len() ==> wanted[(#[trigger] pairs@[j]).0@] == pairs@[j].1@,
                        forall|a: int, b: int|
                            0 <= a < b < pairs.len() ==> (#[trigger] pairs@[a]).0@ != (#[trigger] pairs@[b]).0@,
                        forall|m: int|
                            0 <= m < i && wanted.contains_key((#[trigger] members@[m]).0@) ==> binds(
                                pairs@,
                                members@[m].0@,
                            ),
                    decreases members.len() - i,
                {
                    let key = members[i].0.as_str();
                    let text = match find_member(members, key) {
                        Some(v) => v.as_str(),
                        None => None,
                    };
                    match text {
                        Some(s) => {
                            if !bound(&pairs, key) {
                                let ghost before = pairs@;
                                pairs.push((key.to_owned(), s.to_owned()));
                                proof {
                                    let at = before.len() as int;
                                    assert(pairs@[at].0@ == key@);
                                    assert forall|k: Seq<char>| binds(pairs@, k) implies wanted.contains_key(k) by {
                                        let j = choose|j: int| 0 <= j < pairs@.len() && (#[trigger] pairs@[j]).0@ == k;
                                        if j < at {
                                            assert(before[j] == pairs@[j]);
                                            assert(binds(before, k));
                                        }
                                    }
                                    assert forall|m: int|
                                        0 <= m < i + 1 && wanted.contains_key(
                                            (#[trigger] members@[m]).0@,
                                        ) implies binds(pairs@, members@[m].0@) by {
                                        if m < i {
                                            assert(binds(before, members@[m].0@));
                                            let j = choose|j: int|
                                                0 <= j < before.len() && (#[trigger] before[j]).0@ == members@[m].0@;
                                            assert(pairs@[j] == before[j]);
                                        }
                                    }
                                    assert forall|a: int, b: int| 0 <= a < b < pairs@.len() implies (
                                    #[trigger] pairs@[a]).0@ != (#[trigger] pairs@[b]).0@ by {
                                        if b == at {
                                            assert(before[a] == pairs@[a]);
                                            if pairs@[a].0@ == key@ {
                                                assert(binds(before, key@));
                                            }
                                        } else {
                                            assert(before[a] == pairs@[a] && before[b] == pairs@[b]);
                                        }
                                    }
                                }
                            }
                        },
                        None => {},
                    }
                    i += 1;
                }
                proof {
                    assert forall|k: Seq<char>| wanted.contains_key(k) implies binds(pairs@, k) by {
                        lemma_member_exists(members@, k);
                        let m = choose|m: int| 0 <= m < members@.len() && (#[trigger] members@[m]).0@ == k;
                        assert(binds(pairs@, members@[m].0@));
                    }
                }
            },
            None => {
                proof {
                    assert forall|k: Seq<char>| !wanted.contains_key(k) by {}
                }
            },
        }
        pairs
    }

    /// What the actions are configured with: the member `action`, if there
    /// is one.
    pub fn action(&self) -> (r: Option<&Json>)
        ensures
            match r {
                Some(v) => has_member(self.conf(), "action"@) && v@ == member(self.conf(), "action"@),
                None => !has_member(self.conf(), "action"@),
            },
    {
        self.conf.get("action")
    }

    /// What the report sinks are configured with: the member `report` where
    /// there is one, else a sink that writes CSV to `/data/chord/job/output`.
    pub fn report(&self) -> (r: Option<&Json>)
        ensures
            r is Some,
            r->Some_0@ == if has_member(self.conf(), "report"@) {
                member(self.conf(), "report"@)
            } else {
                self.fallback()
            },
    {
        match self.conf.get("report") {
            Some(v) => Some(v),
            None => Some(&self.report_default),
        }
    }
}

/// How many bytes a text has.
pub open spec fn byte_len(text: Seq<char>) -> nat {
    vstd::utf8::encode_utf8(text).len()
}

/// Which of the levels that are given for targets holds for a target: the
/// one given for the longest beginning of the target's name; the first,
/// where several are given for it.
pub open spec fn level_at(levels: Seq<(Seq<char>, Seq<char>)>, target: Seq<char>) -> Option<int>
    decreases levels.len(),
{
    if levels.len() == 0 {
        None
    } else {
        let before = level_at(levels.drop_last(), target);
        let last = levels.last().0;
        if crate::text::text_starts_with(target, last) && (match before {
            Some(at) => byte_len(last) > byte_len(levels[at].0),
            None => true,
        }) {
            Some(levels.len() - 1)
        } else {
            before
        }
    }
}

/// Which of the levels that are given for targets holds for a target.
pub fn level_for(levels: &Vec<(String, String)>, target: &str) -> (r: Option<usize>)
    ensures
        match r {
            Some(at) => level_at(crate::load::fields_view(levels@), target@) == Some(at as int) && at
                < levels.len(),
            None => level_at(crate::load::fields_view(levels@), target@) is None,
        },
{
    let ghost all = crate::load::fields_view(levels@);
    let mut best: Option<usize> = None;
    let mut i: usize = 0;
    proof {
        assert(all.take(0) =~= Seq::empty());
    }
    while i < levels.len()
        invariant
            i <= levels.len(),
            all == crate::load::fields_view(levels@),
            match best {
                Some(at) => level_at(all.take(i as int), target@) == Some(at as int) && at < i,
                None => level_at(all.take(i as int), target@) is None,
            },
        decreases levels.len() - i,
    {
        proof {
            let next = all.take(i as int + 1);
            assert(next.drop_last() =~= all.take(i as int));
            assert(next.last() == all[i as int]);
            if let Some(at) = best {
                assert(next[at as int] == all.take(i as int)[at as int]);
                assert(all.take(i as int)[at as int] == all[at as int]);
            }
        }
        if crate::text::starts_with(target, levels[i].0.as_str()) {
            let longer = match best {
                Some(at) => levels[i].0.as_str().as_bytes().len() > levels[at].0.as_str().as_bytes().len(),
                None => true,
            };
            if longer {
                best = Some(i);
            }
        }
        i += 1;
    }
    proof {
        assert(all.take(i as int) =~= all);
    }
    best
}

/// What a configuration file holds. A file that is not there holds null;
/// text that is not YAML is refused with the code `yaml`.
pub fn load_conf(text: Option<&str>) -> (r: Result<Json, crate::error::ErrorStruct>)
    ensures
        match text {
            None => r is Ok && r->Ok_0@ == JsonView::Null,
            Some(t) => match r {
                Ok(v) => crate::codec::json_from_yaml(t@) == Some(v@),
                Err(e) => crate::codec::json_from_yaml(t@) is None && e@.code == "yaml"@ && e@.cause is None,
            },
        },
{
    match text {
        None => Ok(Json::Null),
        Some(t) => crate::codec::from_yaml(t),
    }
}

} // verus!
