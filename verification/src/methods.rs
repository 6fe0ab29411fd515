//! The static capability registry: which methods exist, and what a caller
//! needs to invoke them.

use crate::protocol::MethodFamily;
use crate::text::canonical;
use crate::text::lemma_canonical_fixed;
use crate::text::lemma_canonical_idempotent;
use crate::text::normalize;
use vstd::prelude::*;

verus! {

/// One row of the capability table.
#[derive(Debug, Clone, Copy, PartialEq, Eq)]
pub struct MethodSpec {
    pub name: &'static str,
    pub family: MethodFamily,
    pub requires_auth: bool,
    pub min_role: &'static str,
}

/// A row of the capability table as a mathematical value.
pub struct MethodSpecView {
    pub name: Seq<char>,
    pub family: MethodFamily,
    pub requires_auth: bool,
    pub min_role: Seq<char>,
}

impl View for MethodSpec {
    type V = MethodSpecView;

    open spec fn view(&self) -> MethodSpecView {
        MethodSpecView {
            name: self.name@,
            family: self.family,
            requires_auth: self.requires_auth,
            min_role: self.min_role@,
        }
    }
}

/// What resolving one requested method name gave.
#[derive(Debug, Clone, PartialEq, Eq)]
pub struct ResolvedMethod {
    pub requested: String,
    pub canonical: String,
    pub known: bool,
    pub spec: Option<MethodSpec>,
}

/// A resolution as a mathematical value.
pub struct ResolvedView {
    pub requested: Seq<char>,
    pub canonical: Seq<char>,
    pub known: bool,
    pub spec: Option<MethodSpecView>,
}

impl View for ResolvedMethod {
    type V = ResolvedView;

    open spec fn view(&self) -> ResolvedView {
        ResolvedView {
            requested: self.requested@,
            canonical: self.canonical@,
            known: self.known,
            spec: match self.spec {
                Some(spec) => Some(spec@),
                None => None,
            },
        }
    }
}

/// Whether row `i` is the first row of `table` named `name`.
pub open spec fn is_first_match(table: Seq<MethodSpecView>, name: Seq<char>, i: int) -> bool {
    &&& 0 <= i < table.len()
    &&& table[i].name == name
    &&& forall|j: int| 0 <= j < i ==> (#[trigger] table[j]).name != name
}

/// The first row of `table` named `name`, if there is one.
pub open spec fn lookup(table: Seq<MethodSpecView>, name: Seq<char>) -> Option<MethodSpecView> {
    if exists|i: int| is_first_match(table, name, i) {
        Some(table[choose|i: int| is_first_match(table, name, i)])
    } else {
        None
    }
}

/// What resolving `method` against `table` gives.
pub open spec fn resolution(table: Seq<MethodSpecView>, method: Seq<char>) -> ResolvedView {
    ResolvedView {
        requested: method,
        canonical: canonical(method),
        known: lookup(table, canonical(method)) is Some,
        spec: lookup(table, canonical(method)),
    }
}

/// A row with authentication required, as every registered method has it.
pub open spec fn row(name: &str, family: MethodFamily, min_role: &str) -> MethodSpecView {
    MethodSpecView { name: name@, family, requires_auth: true, min_role: min_role@ }
}

/// The capability table of the default registry.
pub open spec fn default_table() -> Seq<MethodSpecView> {
    seq![
        row("connect", MethodFamily::Connect, "client"),
        row("agent.exec", MethodFamily::Agent, "client"),
        row("sessions.patch", MethodFamily::Sessions, "client"),
        row("sessions.list", MethodFamily::Sessions, "client"),
        row("session.status", MethodFamily::Session, "client"),
        row("node.invoke", MethodFamily::Node, "client"),
        row("cron.add", MethodFamily::Cron, "client"),
        row("gateway.restart", MethodFamily::Gateway, "owner"),
        row("message.send", MethodFamily::Message, "client"),
        row("browser.open", MethodFamily::Browser, "client"),
        row("canvas.present", MethodFamily::Canvas, "client"),
        row("pairing.approve", MethodFamily::Pairing, "owner"),
    ]
}

/// The static table of method specs.
pub struct MethodRegistry {
    known: &'static [MethodSpec],
}

impl View for MethodRegistry {
    type V = Seq<MethodSpecView>;

    closed spec fn view(&self) -> Seq<MethodSpecView> {
        self.known@.map_values(|m: MethodSpec| m@)
    }
}

impl MethodRegistry {
    /// The registry of the methods this gateway knows.
    pub fn default_registry() -> (r: Self)
        ensures
            r@ == default_table(),
    {
        let r = Self {
            known: &[
                MethodSpec {
                    name: "connect",
                    family: MethodFamily::Connect,
                    requires_auth: true,
                    min_role: "client",
                },
                MethodSpec {
                    name: "agent.exec",
                    family: MethodFamily::Agent,
                    requires_auth: true,
                    min_role: "client",
                },
                MethodSpec {
                    name: "sessions.patch",
                    family: MethodFamily::Sessions,
                    requires_auth: true,
                    min_role: "client",
                },
                MethodSpec {
                    name: "sessions.list",
                    family: MethodFamily::Sessions,
                    requires_auth: true,
                    min_role: "client",
                },
                MethodSpec {
                    name: "session.status",
                    family: MethodFamily::Session,
                    requires_auth: true,
                    min_role: "client",
                },
                MethodSpec {
                    name: "node.invoke",
                    family: MethodFamily::Node,
                    requires_auth: true,
                    min_role: "client",
                },
                MethodSpec {
                    name: "cron.add",
                    family: MethodFamily::Cron,
                    requires_auth: true,
                    min_role: "client",
                },
                MethodSpec {
                    name: "gateway.restart",
                    family: MethodFamily::Gateway,
                    requires_auth: true,
                    min_role: "owner",
                },
                MethodSpec {
                    name: "message.send",
                    family: MethodFamily::Message,
                    requires_auth: true,
                    min_role: "client",
                },
                MethodSpec {
                    name: "browser.open",
                    family: MethodFamily::Browser,
                    requires_auth: true,
                    min_role: "client",
                },
                MethodSpec {
                    name: "canvas.present",
                    family: MethodFamily::Canvas,
                    requires_auth: true,
                    min_role: "client",
                },
                MethodSpec {
                    name: "pairing.approve",
                    family: MethodFamily::Pairing,
                    requires_auth: true,
                    min_role: "owner",
                },
            ],
        };
        assert(r@ =~= default_table());
        r
    }

    /// Resolves `method`: canonicalizes it and looks the result up in the
    /// table. An unknown name is a valid answer, not an error.
    pub fn resolve(&self, method: &str) -> (r: ResolvedMethod)
        ensures
            r@ == resolution(self@, method@),
    {
        let name = normalize(method);
        let mut i: usize = 0;
        while i < self.known.len()
            invariant
                i <= self.known.len(),
                name@ == canonical(method@),
                forall|j: int| 0 <= j < i ==> (#[trigger] self@[j]).name != name@,
            decreases self.known.len() - i,
        {
            let candidate = self.known[i];
            if *candidate.name == *name.as_str() {
                proof {
                    lemma_lookup_first(self@, name@, i as int);
                }
                return ResolvedMethod {
                    requested: method.to_owned(),
                    canonical: name,
                    known: true,
                    spec: Some(candidate),
                };
            }
            i += 1;
        }
        ResolvedMethod { requested: method.to_owned(), canonical: name, known: false, spec: None }
    }
}

/// The first row of a name is the row that `lookup` gives.
pub proof fn lemma_lookup_first(table: Seq<MethodSpecView>, name: Seq<char>, i: int)
    requires
        is_first_match(table, name, i),
    ensures
        lookup(table, name) == Some(table[i]),
{
    let k = choose|k: int| is_first_match(table, name, k);
    assert(k == i) by {
        if k < i {
            assert(table[k].name != name);
        }
        if i < k {
            assert(table[i].name != name);
        }
    }
}

/// Resolving a normalized name gives what resolving the name as requested
/// gives, except that each resolution echoes the request it was given. The
/// two are equal exactly when the request is already canonical.
pub proof fn lemma_resolve_normalized(table: Seq<MethodSpecView>, method: Seq<char>)
    ensures
        resolution(table, canonical(method)) == (ResolvedView {
            requested: canonical(method),
            ..resolution(table, method)
        }),
        canonical(method) == method ==> resolution(table, canonical(method)) == resolution(
            table,
            method,
        ),
{
    lemma_canonical_idempotent(method);
}

/// A name that no row carries resolves as unknown, with no spec; any other
/// name resolves as known.
pub proof fn lemma_unregistered_unknown(table: Seq<MethodSpecView>, method: Seq<char>)
    ensures
        (forall|i: int| 0 <= i < table.len() ==> (#[trigger] table[i]).name != canonical(method))
            <==> !resolution(table, method).known,
        !resolution(table, method).known <==> resolution(table, method).spec is None,
{
    let name = canonical(method);
    if exists|i: int| 0 <= i < table.len() && (#[trigger] table[i]).name == name {
        let i = choose|i: int| 0 <= i < table.len() && (#[trigger] table[i]).name == name;
        lemma_has_first_match(table, name, i);
    }
}

/// Where some row carries `name`, some row is the first to do so.
proof fn lemma_has_first_match(table: Seq<MethodSpecView>, name: Seq<char>, i: int)
    requires
        0 <= i < table.len(),
        table[i].name == name,
    ensures
        exists|k: int| is_first_match(table, name, k),
    decreases i,
{
    if exists|j: int| 0 <= j < i && (#[trigger] table[j]).name == name {
        let j = choose|j: int| 0 <= j < i && (#[trigger] table[j]).name == name;
        lemma_has_first_match(table, name, j);
    } else {
        assert(is_first_match(table, name, i));
    }
}

/// What the literals of the default table hold.
proof fn lemma_default_names()
    ensures
        default_table().len() == 12,
        forall|i: int|
            0 <= i < 12 ==> canonical((#[trigger] default_table()[i]).name)
                == default_table()[i].name,
        forall|i: int, j: int|
            0 <= i < j < 12 ==> (#[trigger] default_table()[i]).name != (
            #[trigger] default_table()[j]).name,
{
    reveal_strlit("connect");
    reveal_strlit("agent.exec");
    reveal_strlit("sessions.patch");
    reveal_strlit("sessions.list");
    reveal_strlit("session.status");
    reveal_strlit("node.invoke");
    reveal_strlit("cron.add");
    reveal_strlit("gateway.restart");
    reveal_strlit("message.send");
    reveal_strlit("browser.open");
    reveal_strlit("canvas.present");
    reveal_strlit("pairing.approve");
    let t = default_table();
    assert forall|i: int| 0 <= i < 12 implies canonical((#[trigger] t[i]).name) == t[i].name by {
        lemma_canonical_fixed(t[i].name);
    }
}

/// Every row of the default table resolves, by its own name, as known and
/// with that row's family, role and authentication flag.
pub proof fn lemma_default_rows_resolve(i: int)
    requires
        0 <= i < default_table().len(),
    ensures
        resolution(default_table(), default_table()[i].name) == (ResolvedView {
            requested: default_table()[i].name,
            canonical: default_table()[i].name,
            known: true,
            spec: Some(default_table()[i]),
        }),
{
    lemma_default_names();
    let t = default_table();
    assert(is_first_match(t, t[i].name, i));
    lemma_lookup_first(t, t[i].name, i);
}

} // verus!
