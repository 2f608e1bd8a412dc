//! Remote-run requests: validated trigger conditions, run parameters, and
//! the dispatch of a run over the node tree. The HTTP transport around
//! these values is the surrounding program's business.
use vstd::prelude::*;
use vstd::string::StrSliceExecFns;
use crate::cfstrings::{push_char, str_eq};

verus! {

/// A fatal error of the remote-run interface.
#[derive(Debug, Clone)]
pub enum Error {
    /// The condition does not match the accepted shape.
    InvalidCondition { condition: String },
    /// The condition exceeds the accepted length.
    MaxLengthCondition { condition: String, max_length: usize },
    /// A boolean option holds neither `true` nor `false`.
    ParseBoolean { value: String },
}

/// Whether `c` is an ASCII letter or digit.
pub open spec fn spec_alnum(c: char) -> bool {
    (97 <= c as int <= 122) || (65 <= c as int <= 90) || (48 <= c as int <= 57)
}

/// The accepted shape of a trigger condition: one leading letter or digit,
/// then letters, digits or underscores.
pub open spec fn spec_condition_matches(s: Seq<char>) -> bool {
    s.len() > 0 && spec_alnum(s[0]) && forall|i: int|
        1 <= i < s.len() ==> spec_alnum(s[i]) || s[i] == '_'
}

/// Relies on `regex::Regex::new` and `Regex::is_match`: the fixed anchored
/// pattern of one leading ASCII alphanumeric character followed by ASCII
/// alphanumerics or underscores compiles, and matches exactly the strings
/// of that shape.
#[verifier::external_body]
fn condition_regex_match(s: &str) -> (r: bool)
    ensures
        r == spec_condition_matches(s@),
{
    let re = regex::Regex::new(r"^[a-zA-Z0-9][a-zA-Z0-9_]*$").unwrap();
    re.is_match(s)
}

/// The longest condition accepted, in characters.
pub const MAX_CONDITION_LENGTH: usize = 1024;

/// One validated trigger condition.
#[derive(Debug, PartialEq)]
pub struct Condition {
    pub data: String,
}

impl Condition {
    /// Validates one trigger condition: over-long input and input of the
    /// wrong shape are distinct errors.
    pub fn new(s: &str) -> (r: Result<Condition, Error>)
        ensures
            s@.len() > 1024 ==> (r is Err && (r->Err_0 matches Error::MaxLengthCondition {
                condition,
                max_length,
            } && condition@ == s@ && max_length == 1024)),
            s@.len() <= 1024 && !spec_condition_matches(s@) ==> (r is Err
                && (r->Err_0 matches Error::InvalidCondition { condition } && condition@
                == s@)),
            s@.len() <= 1024 && spec_condition_matches(s@) ==> (r is Ok && r->Ok_0.data@
                == s@),
    {
        if s.unicode_len() > MAX_CONDITION_LENGTH {
            return Err(
                Error::MaxLengthCondition {
                    condition: String::from_str(s),
                    max_length: MAX_CONDITION_LENGTH,
                },
            );
        }
        if !condition_regex_match(s) {
            return Err(Error::InvalidCondition { condition: String::from_str(s) });
        }
        Ok(Condition { data: String::from_str(s) })
    }
}

impl core::str::FromStr for Condition {
    type Err = Error;

    fn from_str(s: &str) -> Result<Condition, Error> {
        Condition::new(s)
    }
}

/// What parsing a boolean option yields: only the two exact words parse.
pub open spec fn spec_parse_bool(s: Seq<char>) -> Option<bool> {
    if s == "true"@ {
        Some(true)
    } else if s == "false"@ {
        Some(false)
    } else {
        None
    }
}

/// Parses a boolean option.
pub fn parse_bool(s: &str) -> (r: Result<bool, Error>)
    ensures
        match spec_parse_bool(s@) {
            Some(b) => r is Ok && r->Ok_0 == b,
            None => r is Err && (r->Err_0 matches Error::ParseBoolean { value } && value@
                == s@),
        },
{
    if str_eq(s, "true") {
        Ok(true)
    } else if str_eq(s, "false") {
        Ok(false)
    } else {
        Err(Error::ParseBoolean { value: String::from_str(s) })
    }
}

/// The comma-separated parts of `s`; an empty input is one empty part.
pub open spec fn spec_split(s: Seq<char>) -> Seq<Seq<char>>
    decreases s.len(),
{
    if s.len() == 0 {
        seq![Seq::empty()]
    } else {
        let rest = spec_split(s.skip(1));
        if s[0] == ',' {
            seq![Seq::<char>::empty()] + rest
        } else {
            seq![seq![s[0]] + rest[0]] + rest.skip(1)
        }
    }
}

proof fn lemma_split_len(s: Seq<char>)
    ensures
        spec_split(s).len() >= 1,
    decreases s.len(),
{
    if s.len() > 0 {
        lemma_split_len(s.skip(1));
    }
}

/// Splits on commas, as `str::split(',')` does.
pub fn split_commas(s: &str) -> (r: Vec<String>)
    ensures
        r@.map_values(|p: String| p@) == spec_split(s@),
{
    let len = s.unicode_len();
    let mut parts: Vec<String> = Vec::new();
    let mut cur = String::new();
    let mut i: usize = 0;
    proof {
        lemma_split_len(s@);
        assert(s@.skip(0) =~= s@);
        assert(spec_split(s@) =~= parts@.map_values(|p: String| p@) + seq![
            cur@ + spec_split(s@.skip(0))[0],
        ] + spec_split(s@.skip(0)).skip(1));
    }
    while i < len
        invariant
            len == s@.len(),
            i <= len,
            spec_split(s@) == parts@.map_values(|p: String| p@) + seq![
                cur@ + spec_split(s@.skip(i as int))[0],
            ] + spec_split(s@.skip(i as int)).skip(1),
        decreases len - i,
    {
        let c = s.get_char(i);
        proof {
            lemma_split_len(s@.skip(i as int + 1));
            assert(s@.skip(i as int)[0] == s@[i as int]);
            assert(s@.skip(i as int).skip(1) =~= s@.skip(i as int + 1));
        }
        if c == ',' {
            let ghost parts0 = parts@;
            let ghost cur0 = cur@;
            parts.push(cur);
            cur = String::new();
            proof {
                let rest = spec_split(s@.skip(i as int + 1));
                assert(cur0 + Seq::<char>::empty() =~= cur0);
                assert(parts@.map_values(|p: String| p@) =~= parts0.map_values(|p: String| p@)
                    + seq![cur0]);
                assert(spec_split(s@) =~= parts@.map_values(|p: String| p@) + seq![
                    cur@ + rest[0],
                ] + rest.skip(1));
            }
        } else {
            let ghost cur0 = cur@;
            push_char(&mut cur, c);
            proof {
                let rest = spec_split(s@.skip(i as int + 1));
                assert(spec_split(s@.skip(i as int))[0] == seq![s@[i as int]] + rest[0]);
                assert(spec_split(s@.skip(i as int)).skip(1) =~= rest.skip(1));
                assert(cur@ + rest[0] =~= cur0 + (seq![s@[i as int]] + rest[0]));
                assert(spec_split(s@) =~= parts@.map_values(|p: String| p@) + seq![
                    cur@ + rest[0],
                ] + rest.skip(1));
            }
        }
        i = i + 1;
    }
    let ghost parts0 = parts@;
    let ghost cur0 = cur@;
    parts.push(cur);
    proof {
        assert(s@.skip(len as int) =~= Seq::<char>::empty());
        assert(cur0 + Seq::<char>::empty() =~= cur0);
        assert(parts@.map_values(|p: String| p@) =~= parts0.map_values(|p: String| p@) + seq![
            cur0,
        ]);
        assert(parts@.map_values(|p: String| p@) =~= spec_split(s@));
    }
    parts
}

/// What validating a condition list yields: the first over-long or
/// ill-shaped part is the error, else every part in order.
pub open spec fn spec_conditions(parts: Seq<Seq<char>>, i: int) -> Result<
    Seq<Seq<char>>,
    Seq<char>,
>
    decreases parts.len() - i,
{
    if 0 <= i < parts.len() {
        if parts[i].len() > 1024 || !spec_condition_matches(parts[i]) {
            Err(parts[i])
        } else {
            match spec_conditions(parts, i + 1) {
                Ok(rest) => Ok(seq![parts[i]] + rest),
                Err(p) => Err(p),
            }
        }
    } else {
        Ok(Seq::empty())
    }
}

/// Why building run parameters failed: an over-long condition, an
/// ill-shaped condition, or a boolean option that parses as neither word.
pub enum RPFail {
    TooLong(Seq<char>),
    Invalid(Seq<char>),
    NotBool(Seq<char>),
}

/// Whether an error value matches the failure the validation spec names.
pub open spec fn rp_fail_matches(e: Error, f: RPFail) -> bool {
    match f {
        RPFail::TooLong(p) => e matches Error::MaxLengthCondition { condition, max_length }
            && condition@ == p && max_length == 1024,
        RPFail::Invalid(p) => e matches Error::InvalidCondition { condition } && condition@
            == p,
        RPFail::NotBool(v) => e matches Error::ParseBoolean { value } && value@ == v,
    }
}

/// The parameters of one remote run.
#[derive(Debug, PartialEq)]
pub struct RunParameters {
    pub asynchronous: bool,
    pub keep_output: bool,
    pub conditions: Vec<Condition>,
}

/// What building run parameters yields, in the order the inputs are
/// validated: conditions first, then the two booleans.
pub open spec fn spec_run_parameters(
    raw_asynchronous: Option<Seq<char>>,
    raw_keep_output: Option<Seq<char>>,
    raw_conditions: Option<Seq<char>>,
) -> Result<(bool, bool, Seq<Seq<char>>), RPFail> {
    let conds: Result<Seq<Seq<char>>, RPFail> = match raw_conditions {
        Some(c) => if c.len() > 0 {
            match spec_conditions(spec_split(c), 0) {
                Ok(parts) => Ok(parts),
                Err(p) => if p.len() > 1024 {
                    Err(RPFail::TooLong(p))
                } else {
                    Err(RPFail::Invalid(p))
                },
            }
        } else {
            Ok(Seq::empty())
        },
        None => Ok(Seq::empty()),
    };
    match conds {
        Err(f) => Err(f),
        Ok(parts) => {
            let a: Option<bool> = match raw_asynchronous {
                Some(s) => spec_parse_bool(s),
                None => Some(false),
            };
            match a {
                None => Err(RPFail::NotBool(raw_asynchronous->0)),
                Some(av) => {
                    let k: Option<bool> = match raw_keep_output {
                        Some(s) => spec_parse_bool(s),
                        None => Some(false),
                    };
                    match k {
                        None => Err(RPFail::NotBool(raw_keep_output->0)),
                        Some(kv) => Ok((av, kv, parts)),
                    }
                },
            }
        },
    }
}

impl RunParameters {
    /// Validates the three raw options of a remote-run request. A missing
    /// boolean defaults to false; a missing or empty condition list means
    /// no conditions.
    pub fn new(
        raw_asynchronous: Option<&String>,
        raw_keep_output: Option<&String>,
        raw_conditions: Option<&String>,
    ) -> (r: Result<RunParameters, Error>)
        ensures
            ({
                let spec = spec_run_parameters(
                    opt_string_view(raw_asynchronous),
                    opt_string_view(raw_keep_output),
                    opt_string_view(raw_conditions),
                );
                match spec {
                    Ok(t) => r is Ok && r->Ok_0.asynchronous == t.0 && r->Ok_0.keep_output
                        == t.1 && r->Ok_0.conditions@.map_values(|c: Condition| c.data@) == t.2,
                    Err(f) => r is Err && rp_fail_matches(r->Err_0, f),
                }
            }),
    {
        let conditions: Vec<Condition> = match raw_conditions {
            Some(c) => if c.as_str().unicode_len() > 0 {
                let parts = split_commas(c.as_str());
                match conditions_from(&parts, 0) {
                    Ok(v) => v,
                    Err(e) => {
                        return Err(e);
                    },
                }
            } else {
                Vec::new()
            },
            None => Vec::new(),
        };
        let asynchronous: bool = match raw_asynchronous {
            Some(s) => match parse_bool(s.as_str()) {
                Ok(b) => b,
                Err(e) => {
                    return Err(e);
                },
            },
            None => false,
        };
        let keep_output: bool = match raw_keep_output {
            Some(s) => match parse_bool(s.as_str()) {
                Ok(b) => b,
                Err(e) => {
                    return Err(e);
                },
            },
            None => false,
        };
        proof {
            if raw_conditions is None || raw_conditions->0@.len() == 0 {
                assert(conditions@.map_values(|c: Condition| c.data@)
                    =~= Seq::<Seq<char>>::empty());
            }
        }
        Ok(RunParameters { asynchronous, keep_output, conditions })
    }
}

/// Validates the split condition parts from `i` on; the first bad part is
/// the error.
fn conditions_from(parts: &Vec<String>, i: usize) -> (r: Result<Vec<Condition>, Error>)
    requires
        i <= parts@.len(),
    ensures
        match spec_conditions(parts@.map_values(|p: String| p@), i as int) {
            Ok(cs) => r is Ok && r->Ok_0@.map_values(|c: Condition| c.data@) == cs,
            Err(p) => r is Err && (if p.len() > 1024 {
                r->Err_0 matches Error::MaxLengthCondition { condition, max_length }
                    && condition@ == p && max_length == 1024
            } else {
                r->Err_0 matches Error::InvalidCondition { condition } && condition@ == p
            }),
        },
    decreases parts@.len() - i,
{
    if i >= parts.len() {
        let r: Vec<Condition> = Vec::new();
        proof {
            assert(r@.map_values(|c: Condition| c.data@) =~= Seq::<Seq<char>>::empty());
        }
        Ok(r)
    } else {
        proof {
            assert(parts@.map_values(|p: String| p@)[i as int] == parts@[i as int]@);
        }
        let head = match Condition::new(parts[i].as_str()) {
            Ok(c) => c,
            Err(e) => {
                return Err(e);
            },
        };
        let mut rest = match conditions_from(parts, i + 1) {
            Ok(v) => v,
            Err(e) => {
                return Err(e);
            },
        };
        let ghost rest_snap = rest@;
        let mut out: Vec<Condition> = Vec::new();
        out.push(head);
        out.append(&mut rest);
        proof {
            assert(out@.map_values(|c: Condition| c.data@) =~= seq![out@[0].data@]
                + rest_snap.map_values(|c: Condition| c.data@));
        }
        Ok(out)
    }
}

/// An optional string's text.
pub open spec fn opt_string_view(o: Option<&String>) -> Option<Seq<char>> {
    match o {
        Some(s) => Some(s@),
        None => None,
    }
}

/// The command line that triggers a run: the agent command (under sudo when
/// configured), the fixed subcommand, the conditions joined behind `-D`
/// when there are any, and the comma-joined target nodes last.
pub open spec fn spec_command(
    use_sudo: bool,
    command: Seq<char>,
    conds: Seq<Seq<char>>,
    nodes: Seq<Seq<char>>,
) -> Seq<Seq<char>> {
    let base: Seq<Seq<char>> = if use_sudo {
        seq!["sudo"@, command]
    } else {
        seq![command]
    };
    let with_rr = base + seq!["remote"@, "run"@];
    let with_conds: Seq<Seq<char>> = if conds.len() > 0 {
        with_rr + seq!["-D"@, crate::cfstrings::spec_join(conds, ","@)]
    } else {
        with_rr
    };
    with_conds + seq![crate::cfstrings::spec_join(nodes, ","@)]
}

impl RunParameters {
    /// The command line of one run, program first. The caller must name at
    /// least one node.
    pub fn command(&self, cfg: &crate::config::RemoteRun, nodes: &Vec<String>) -> (r: Vec<
        String,
    >)
        requires
            nodes@.len() > 0,
        ensures
            r@.map_values(|s: String| s@) == spec_command(
                cfg.use_sudo,
                cfg.command@,
                self.conditions@.map_values(|c: Condition| c.data@),
                nodes@.map_values(|s: String| s@),
            ),
    {
        let mut r: Vec<String> = Vec::new();
        if cfg.use_sudo {
            r.push(String::from_str("sudo"));
        }
        r.push(cfg.command.clone());
        r.push(String::from_str("remote"));
        r.push(String::from_str("run"));
        if self.conditions.len() > 0 {
            r.push(String::from_str("-D"));
            let mut datas: Vec<String> = Vec::new();
            let mut k: usize = 0;
            while k < self.conditions.len()
                invariant
                    k <= self.conditions@.len(),
                    datas@.len() == k,
                    forall|j: int| 0 <= j < k ==> #[trigger] datas@[j]@
                        == self.conditions@[j].data@,
                decreases self.conditions@.len() - k,
            {
                datas.push(self.conditions[k].data.clone());
                k = k + 1;
            }
            proof {
                let cs = self.conditions@.map_values(|c: Condition| c.data@);
                assert forall|j: int| 0 <= j < cs.len() implies datas@.map_values(
                    |s: String| s@,
                )[j] == cs[j] by {
                    assert(datas@[j]@ == self.conditions@[j].data@);
                }
                assert(datas@.map_values(|s: String| s@) =~= cs);
            }
            let joined = crate::cfstrings::join(&datas, ",");
            r.push(joined);
        }
        let njoined = crate::cfstrings::join(nodes, ",");
        r.push(njoined);
        proof {
            assert(r@.map_values(|s: String| s@) =~= spec_command(
                cfg.use_sudo,
                cfg.command@,
                self.conditions@.map_values(|c: Condition| c.data@),
                nodes@.map_values(|s: String| s@),
            ));
        }
        r
    }
}

/// What a remote run is aimed at: the whole tree, or the named nodes.
#[derive(Debug, Clone, PartialEq, Eq)]
pub enum RemoteRunTarget {
    All,
    Nodes(Vec<String>),
}

/// One remote-run request: its target and its validated parameters.
#[derive(Debug)]
pub struct RemoteRun {
    pub target: RemoteRunTarget,
    pub run_parameters: RunParameters,
}

impl RemoteRun {
    /// Validates one request's options. The condition list is read from
    /// the `conditions` option when present, else from its older name
    /// `classes`.
    pub fn new(target: RemoteRunTarget, options: &Vec<(String, String)>) -> (r: Result<
        RemoteRun,
        Error,
    >)
        ensures
            ({
                let co: Option<String> = if crate::ir::spec_assoc_get(
                    options@,
                    "conditions"@,
                ) is Some {
                    crate::ir::spec_assoc_get(options@, "conditions"@)
                } else {
                    crate::ir::spec_assoc_get(options@, "classes"@)
                };
                let spec = spec_run_parameters(
                    opt_view_owned(crate::ir::spec_assoc_get(options@, "asynchronous"@)),
                    opt_view_owned(crate::ir::spec_assoc_get(options@, "keep_output"@)),
                    opt_view_owned(co),
                );
                match spec {
                    Ok(t) => r is Ok && r->Ok_0.target == target
                        && r->Ok_0.run_parameters.asynchronous == t.0
                        && r->Ok_0.run_parameters.keep_output == t.1
                        && r->Ok_0.run_parameters.conditions@.map_values(
                        |c: Condition| c.data@,
                    ) == t.2,
                    Err(f) => r is Err && rp_fail_matches(r->Err_0, f),
                }
            }),
    {
        let raw_async = crate::ir::assoc_get(options, "asynchronous");
        let raw_keep = crate::ir::assoc_get(options, "keep_output");
        let has_conditions = match crate::ir::assoc_get(options, "conditions") {
            Some(_) => true,
            None => false,
        };
        let raw_conds = if has_conditions {
            crate::ir::assoc_get(options, "conditions")
        } else {
            crate::ir::assoc_get(options, "classes")
        };
        match RunParameters::new(raw_async, raw_keep, raw_conds) {
            Ok(run_parameters) => Ok(RemoteRun { target, run_parameters }),
            Err(e) => Err(e),
        }
    }
}

/// An optional owned string's text.
pub open spec fn opt_view_owned(o: Option<String>) -> Option<Seq<char>> {
    match o {
        Some(s) => Some(s@),
        None => None,
    }
}

/// One known node of the tree: its identifier, the host name it is reached
/// at, and the identifier of the policy server directly above it.
#[derive(Debug, Clone)]
pub struct NodeInfo {
    pub id: String,
    pub hostname: String,
    pub policy_server: String,
}

/// This relay's model of the node tree: its own identifier and the known
/// nodes. A node whose policy server is this relay is a direct neighbor; a
/// neighbor that is itself someone's policy server is a sub-relay.
#[derive(Debug)]
pub struct NodesList {
    pub my_id: String,
    pub nodes: Vec<NodeInfo>,
}

/// The host names of the direct neighbors, from `i` on.
pub open spec fn spec_neighbors(nl: NodesList, i: int) -> Seq<Seq<char>>
    decreases nl.nodes@.len() - i,
{
    if 0 <= i < nl.nodes@.len() {
        if nl.nodes@[i].policy_server@ == nl.my_id@ {
            seq![nl.nodes@[i].hostname@] + spec_neighbors(nl, i + 1)
        } else {
            spec_neighbors(nl, i + 1)
        }
    } else {
        Seq::empty()
    }
}

/// Whether `x` is among the given identifiers.
pub open spec fn spec_has_id(ids: Seq<Seq<char>>, x: Seq<char>) -> bool {
    exists|j: int| 0 <= j < ids.len() && ids[j] == x
}

/// The host names of the direct neighbors among the given nodes, from `i`
/// on.
pub open spec fn spec_neighbors_from(nl: NodesList, ids: Seq<Seq<char>>, i: int) -> Seq<
    Seq<char>,
>
    decreases nl.nodes@.len() - i,
{
    if 0 <= i < nl.nodes@.len() {
        if nl.nodes@[i].policy_server@ == nl.my_id@ && spec_has_id(ids, nl.nodes@[i].id@) {
            seq![nl.nodes@[i].hostname@] + spec_neighbors_from(nl, ids, i + 1)
        } else {
            spec_neighbors_from(nl, ids, i + 1)
        }
    } else {
        Seq::empty()
    }
}

/// Whether some node names `id` as its policy server.
pub open spec fn spec_is_relay(nl: NodesList, id: Seq<char>) -> bool {
    exists|j: int| 0 <= j < nl.nodes@.len() && nl.nodes@[j].policy_server@ == id
}

/// The policy server of the first node with identifier `x`, if any.
pub open spec fn spec_node_parent(nl: NodesList, x: Seq<char>, i: int) -> Option<Seq<char>>
    decreases nl.nodes@.len() - i,
{
    if 0 <= i < nl.nodes@.len() {
        if nl.nodes@[i].id@ == x {
            Some(nl.nodes@[i].policy_server@)
        } else {
            spec_node_parent(nl, x, i + 1)
        }
    } else {
        None
    }
}

/// The given identifiers that sit directly under the relay `relay_id`,
/// from `k` on.
pub open spec fn spec_group(nl: NodesList, ids: Seq<Seq<char>>, relay_id: Seq<char>, k: int)
    -> Seq<Seq<char>>
    decreases ids.len() - k,
{
    if 0 <= k < ids.len() {
        if spec_node_parent(nl, ids[k], 0) == Some(relay_id) {
            seq![ids[k]] + spec_group(nl, ids, relay_id, k + 1)
        } else {
            spec_group(nl, ids, relay_id, k + 1)
        }
    } else {
        Seq::empty()
    }
}

/// The next hops for a run over the whole tree, from `i` on: every direct
/// sub-relay, each itself targeting the whole tree.
pub open spec fn spec_next_hops_all(nl: NodesList, i: int) -> Seq<(Seq<char>, Option<Seq<
    Seq<char>,
>>)>
    decreases nl.nodes@.len() - i,
{
    if 0 <= i < nl.nodes@.len() {
        if nl.nodes@[i].policy_server@ == nl.my_id@ && spec_is_relay(nl, nl.nodes@[i].id@) {
            seq![(nl.nodes@[i].hostname@, None::<Seq<Seq<char>>>)] + spec_next_hops_all(
                nl,
                i + 1,
            )
        } else {
            spec_next_hops_all(nl, i + 1)
        }
    } else {
        Seq::empty()
    }
}

/// The next hops for a run over the named nodes, from `i` on: each direct
/// sub-relay together with the named nodes directly under it, skipping
/// sub-relays with nothing to do.
pub open spec fn spec_next_hops_from(nl: NodesList, ids: Seq<Seq<char>>, i: int) -> Seq<(
    Seq<char>,
    Option<Seq<Seq<char>>>,
)>
    decreases nl.nodes@.len() - i,
{
    if 0 <= i < nl.nodes@.len() {
        if nl.nodes@[i].policy_server@ == nl.my_id@ && spec_is_relay(nl, nl.nodes@[i].id@)
            && spec_group(nl, ids, nl.nodes@[i].id@, 0).len() > 0 {
            seq![
                (
                    nl.nodes@[i].hostname@,
                    Some(spec_group(nl, ids, nl.nodes@[i].id@, 0)),
                ),
            ] + spec_next_hops_from(nl, ids, i + 1)
        } else {
            spec_next_hops_from(nl, ids, i + 1)
        }
    } else {
        Seq::empty()
    }
}

/// The pair a next-hop entry describes: the sub-relay's host name, and the
/// node identifiers it is handed (`None` for the whole tree).
pub open spec fn spec_hop_view(p: (String, RemoteRunTarget)) -> (Seq<char>, Option<Seq<
    Seq<char>,
>>) {
    (
        p.0@,
        match p.1 {
            RemoteRunTarget::All => None,
            RemoteRunTarget::Nodes(v) => Some(v@.map_values(|s: String| s@)),
        },
    )
}

fn ids_contain(ids: &Vec<String>, x: &str) -> (r: bool)
    ensures
        r == spec_has_id(ids@.map_values(|s: String| s@), x@),
{
    let mut j: usize = 0;
    while j < ids.len()
        invariant
            j <= ids@.len(),
            forall|k: int| 0 <= k < j ==> #[trigger] ids@[k]@ != x@,
        decreases ids@.len() - j,
    {
        if str_eq(ids[j].as_str(), x) {
            assert(ids@.map_values(|s: String| s@)[j as int] == x@);
            return true;
        }
        j = j + 1;
    }
    proof {
        let view = ids@.map_values(|s: String| s@);
        if spec_has_id(view, x@) {
            let k = choose|k: int| 0 <= k < view.len() && view[k] == x@;
            assert(view[k] == ids@[k]@);
            assert(false);
        }
    }
    false
}

fn is_relay_node(nl: &NodesList, id: &str) -> (r: bool)
    ensures
        r == spec_is_relay(*nl, id@),
{
    let mut j: usize = 0;
    while j < nl.nodes.len()
        invariant
            j <= nl.nodes@.len(),
            forall|k: int| 0 <= k < j ==> nl.nodes@[k].policy_server@ != id@,
        decreases nl.nodes@.len() - j,
    {
        if str_eq(nl.nodes[j].policy_server.as_str(), id) {
            return true;
        }
        j = j + 1;
    }
    false
}

fn node_parent<'a>(nl: &'a NodesList, x: &str) -> (r: Option<&'a String>)
    ensures
        match r {
            Some(p) => spec_node_parent(*nl, x@, 0) == Some(p@),
            None => spec_node_parent(*nl, x@, 0) is None,
        },
{
    let mut j: usize = 0;
    while j < nl.nodes.len()
        invariant
            j <= nl.nodes@.len(),
            spec_node_parent(*nl, x@, 0) == spec_node_parent(*nl, x@, j as int),
        decreases nl.nodes@.len() - j,
    {
        if str_eq(nl.nodes[j].id.as_str(), x) {
            return Some(&nl.nodes[j].policy_server);
        }
        j = j + 1;
    }
    None
}

fn collect_group(nl: &NodesList, ids: &Vec<String>, relay_id: &str, k: usize) -> (r: Vec<String>)
    requires
        k <= ids@.len(),
    ensures
        r@.map_values(|s: String| s@) == spec_group(
            *nl,
            ids@.map_values(|s: String| s@),
            relay_id@,
            k as int,
        ),
    decreases ids@.len() - k,
{
    if k >= ids.len() {
        let r: Vec<String> = Vec::new();
        proof {
            assert(r@.map_values(|s: String| s@) =~= Seq::<Seq<char>>::empty());
        }
        return r;
    }
    proof {
        assert(ids@.map_values(|s: String| s@)[k as int] == ids@[k as int]@);
    }
    let keep = match node_parent(nl, ids[k].as_str()) {
        Some(p) => str_eq(p.as_str(), relay_id),
        None => false,
    };
    let mut rest = collect_group(nl, ids, relay_id, k + 1);
    if keep {
        let ghost rest_snap = rest@;
        let mut out: Vec<String> = Vec::new();
        out.push(ids[k].clone());
        out.append(&mut rest);
        proof {
            assert(out@.map_values(|s: String| s@) =~= seq![out@[0]@] + rest_snap.map_values(
                |s: String| s@,
            ));
        }
        out
    } else {
        rest
    }
}

impl RemoteRunTarget {
    /// The host names this run is sent to directly: every direct neighbor
    /// for a whole-tree run, else the direct neighbors among the named
    /// nodes.
    pub fn neighbors(&self, nodes: &NodesList) -> (r: Vec<String>)
        ensures
            match self {
                RemoteRunTarget::All => r@.map_values(|s: String| s@) == spec_neighbors(
                    *nodes,
                    0,
                ),
                RemoteRunTarget::Nodes(l) => r@.map_values(|s: String| s@)
                    == spec_neighbors_from(*nodes, l@.map_values(|s: String| s@), 0),
            },
    {
        match self {
            RemoteRunTarget::All => collect_neighbors(nodes, 0),
            RemoteRunTarget::Nodes(l) => collect_neighbors_from(nodes, l, 0),
        }
    }

    /// The sub-relays this run is forwarded through, each with the target
    /// it is handed: the whole tree again, or the named nodes directly
    /// under it (sub-relays with nothing to do are skipped).
    pub fn next_hops(&self, nodes: &NodesList) -> (r: Vec<(String, RemoteRunTarget)>)
        ensures
            match self {
                RemoteRunTarget::All => r@.map_values(|p: (String, RemoteRunTarget)|
                    spec_hop_view(p)) == spec_next_hops_all(*nodes, 0),
                RemoteRunTarget::Nodes(l) => r@.map_values(|p: (String, RemoteRunTarget)|
                    spec_hop_view(p)) == spec_next_hops_from(
                    *nodes,
                    l@.map_values(|s: String| s@),
                    0,
                ),
            },
    {
        match self {
            RemoteRunTarget::All => collect_hops_all(nodes, 0),
            RemoteRunTarget::Nodes(l) => collect_hops_from(nodes, l, 0),
        }
    }
}

fn collect_neighbors(nl: &NodesList, i: usize) -> (r: Vec<String>)
    requires
        i <= nl.nodes@.len(),
    ensures
        r@.map_values(|s: String| s@) == spec_neighbors(*nl, i as int),
    decreases nl.nodes@.len() - i,
{
    if i >= nl.nodes.len() {
        let r: Vec<String> = Vec::new();
        proof {
            assert(r@.map_values(|s: String| s@) =~= Seq::<Seq<char>>::empty());
        }
        return r;
    }
    let keep = str_eq(nl.nodes[i].policy_server.as_str(), nl.my_id.as_str());
    let mut rest = collect_neighbors(nl, i + 1);
    if keep {
        let ghost rest_snap = rest@;
        let mut out: Vec<String> = Vec::new();
        out.push(nl.nodes[i].hostname.clone());
        out.append(&mut rest);
        proof {
            assert(out@.map_values(|s: String| s@) =~= seq![out@[0]@] + rest_snap.map_values(
                |s: String| s@,
            ));
        }
        out
    } else {
        rest
    }
}

fn collect_neighbors_from(nl: &NodesList, ids: &Vec<String>, i: usize) -> (r: Vec<String>)
    requires
        i <= nl.nodes@.len(),
    ensures
        r@.map_values(|s: String| s@) == spec_neighbors_from(
            *nl,
            ids@.map_values(|s: String| s@),
            i as int,
        ),
    decreases nl.nodes@.len() - i,
{
    if i >= nl.nodes.len() {
        let r: Vec<String> = Vec::new();
        proof {
            assert(r@.map_values(|s: String| s@) =~= Seq::<Seq<char>>::empty());
        }
        return r;
    }
    let keep = str_eq(nl.nodes[i].policy_server.as_str(), nl.my_id.as_str()) && ids_contain(
        ids,
        nl.nodes[i].id.as_str(),
    );
    let mut rest = collect_neighbors_from(nl, ids, i + 1);
    if keep {
        let ghost rest_snap = rest@;
        let mut out: Vec<String> = Vec::new();
        out.push(nl.nodes[i].hostname.clone());
        out.append(&mut rest);
        proof {
            assert(out@.map_values(|s: String| s@) =~= seq![out@[0]@] + rest_snap.map_values(
                |s: String| s@,
            ));
        }
        out
    } else {
        rest
    }
}

fn collect_hops_all(nl: &NodesList, i: usize) -> (r: Vec<(String, RemoteRunTarget)>)
    requires
        i <= nl.nodes@.len(),
    ensures
        r@.map_values(|p: (String, RemoteRunTarget)| spec_hop_view(p)) == spec_next_hops_all(
            *nl,
            i as int,
        ),
    decreases nl.nodes@.len() - i,
{
    if i >= nl.nodes.len() {
        let r: Vec<(String, RemoteRunTarget)> = Vec::new();
        proof {
            assert(r@.map_values(|p: (String, RemoteRunTarget)| spec_hop_view(p)) =~= Seq::<
                (Seq<char>, Option<Seq<Seq<char>>>),
            >::empty());
        }
        return r;
    }
    let keep = str_eq(nl.nodes[i].policy_server.as_str(), nl.my_id.as_str()) && is_relay_node(
        nl,
        nl.nodes[i].id.as_str(),
    );
    let mut rest = collect_hops_all(nl, i + 1);
    if keep {
        let ghost rest_snap = rest@;
        let mut out: Vec<(String, RemoteRunTarget)> = Vec::new();
        out.push((nl.nodes[i].hostname.clone(), RemoteRunTarget::All));
        out.append(&mut rest);
        proof {
            assert(out@.map_values(|p: (String, RemoteRunTarget)| spec_hop_view(p)) =~= seq![
                spec_hop_view(out@[0]),
            ] + rest_snap.map_values(|p: (String, RemoteRunTarget)| spec_hop_view(p)));
        }
        out
    } else {
        rest
    }
}

fn collect_hops_from(nl: &NodesList, ids: &Vec<String>, i: usize) -> (r: Vec<(
    String,
    RemoteRunTarget,
)>)
    requires
        i <= nl.nodes@.len(),
    ensures
        r@.map_values(|p: (String, RemoteRunTarget)| spec_hop_view(p)) == spec_next_hops_from(
            *nl,
            ids@.map_values(|s: String| s@),
            i as int,
        ),
    decreases nl.nodes@.len() - i,
{
    if i >= nl.nodes.len() {
        let r: Vec<(String, RemoteRunTarget)> = Vec::new();
        proof {
            assert(r@.map_values(|p: (String, RemoteRunTarget)| spec_hop_view(p)) =~= Seq::<
                (Seq<char>, Option<Seq<Seq<char>>>),
            >::empty());
        }
        return r;
    }
    let under_me = str_eq(nl.nodes[i].policy_server.as_str(), nl.my_id.as_str())
        && is_relay_node(nl, nl.nodes[i].id.as_str());
    let mut rest = collect_hops_from(nl, ids, i + 1);
    if under_me {
        let group = collect_group(nl, ids, nl.nodes[i].id.as_str(), 0);
        if group.len() > 0 {
            let ghost rest_snap = rest@;
            let mut out: Vec<(String, RemoteRunTarget)> = Vec::new();
            out.push((nl.nodes[i].hostname.clone(), RemoteRunTarget::Nodes(group)));
            out.append(&mut rest);
            proof {
                assert(out@.map_values(|p: (String, RemoteRunTarget)| spec_hop_view(p))
                    =~= seq![spec_hop_view(out@[0])] + rest_snap.map_values(
                    |p: (String, RemoteRunTarget)| spec_hop_view(p),
                ));
            }
            out
        } else {
            rest
        }
    } else {
        rest
    }
}

} // verus!
