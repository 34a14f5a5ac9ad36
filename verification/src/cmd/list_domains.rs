//! The command that lists the counters.

use vstd::prelude::*;
use vstd::string::*;
use crate::cli::ListArgs;
use crate::config::text_of;
use crate::errors::JouleProfilerError;
use crate::rapl::domain::{
    discover_sockets,
    parse_sockets,
    selected_sockets,
    socket_filter_fault,
    socket_set,
    RaplDomain,
};
use crate::text::{
    lemma_lex_total,
    lemma_lex_transitive,
    lex_less,
    text_less,
    to_uppercase,
    uppercase_of,
};

verus! {

/// One counter as it is listed.
#[derive(Debug)]
pub struct DomainInfo {
    /// The socket of the counter.
    pub socket: u32,
    /// The name of its domain in upper case.
    pub name: String,
    /// The name of its domain as the machine gives it.
    pub raw_name: String,
    /// Where the counter is read.
    pub path: String,
}

/// A [`DomainInfo`] as a value of specifications.
pub ghost struct InfoText {
    pub socket: u32,
    pub name: Seq<char>,
    pub raw_name: Seq<char>,
    pub path: Seq<char>,
}

impl View for DomainInfo {
    type V = InfoText;

    open spec fn view(&self) -> InfoText {
        InfoText { socket: self.socket, name: self.name@, raw_name: self.raw_name@, path: self.path@ }
    }
}

/// How the counter `d` is listed.
pub open spec fn info_of(d: RaplDomain) -> InfoText {
    InfoText { socket: d.socket, name: uppercase_of(d.name@), raw_name: d.name@, path: d.path@ }
}

/// Whether `a` is listed before `b`: by socket, then by name.
pub open spec fn listed_before(a: InfoText, b: InfoText) -> bool {
    a.socket < b.socket || (a.socket == b.socket && lex_less(a.name, b.name))
}

/// `list` with `x` put in front of the entries at its end that are listed
/// behind `x`.
pub open spec fn insert_info(list: Seq<InfoText>, x: InfoText) -> Seq<InfoText>
    decreases list.len(),
{
    if list.len() > 0 && listed_before(x, list.last()) {
        insert_info(list.drop_last(), x).push(list.last())
    } else {
        list.push(x)
    }
}

/// The list of the counters of `domains` on the sockets `sockets`, by
/// socket and name; counters that agree in both keep the order they
/// have in `domains`.
pub open spec fn listing(domains: Seq<RaplDomain>, sockets: Set<u32>) -> Seq<InfoText>
    decreases domains.len(),
{
    if domains.len() == 0 {
        Seq::empty()
    } else {
        let earlier = listing(domains.drop_last(), sockets);
        if sockets.contains(domains.last().socket) {
            insert_info(earlier, info_of(domains.last()))
        } else {
            earlier
        }
    }
}

/// Whether no entry of `list` is listed before one that stands in front
/// of it.
pub open spec fn is_sorted_listing(list: Seq<InfoText>) -> bool {
    forall|i: int, j: int|
        0 <= i < j < list.len() ==> !listed_before(#[trigger] list[j], #[trigger] list[i])
}

/// Of three entries of which none is listed before the one in front of
/// it, the last is not listed before the first.
pub proof fn lemma_listed_order(a: InfoText, b: InfoText, c: InfoText)
    requires
        !listed_before(b, a),
        !listed_before(c, b),
    ensures
        !listed_before(c, a),
{
    lemma_lex_total(a.name, b.name);
    if lex_less(c.name, a.name) && lex_less(a.name, b.name) {
        lemma_lex_transitive(c.name, a.name, b.name);
    }
}

/// An entry put into a list is there once more than before, and every
/// other entry as often as before.
pub proof fn lemma_insert_info_keeps_entries(list: Seq<InfoText>, x: InfoText)
    ensures
        insert_info(list, x).to_multiset() == list.to_multiset().insert(x),
        insert_info(list, x).len() == list.len() + 1,
    decreases list.len(),
{
    broadcast use vstd::seq_lib::group_to_multiset_ensures;

    if list.len() > 0 && listed_before(x, list.last()) {
        let head = list.drop_last();
        lemma_insert_info_keeps_entries(head, x);
        assert(list =~= head.push(list.last()));
    }
}

/// An entry put into a sorted list leaves the list sorted.
pub proof fn lemma_insert_info_keeps_order(list: Seq<InfoText>, x: InfoText)
    requires
        is_sorted_listing(list),
    ensures
        is_sorted_listing(insert_info(list, x)),
    decreases list.len(),
{
    let after = insert_info(list, x);
    if list.len() > 0 && listed_before(x, list.last()) {
        let head = list.drop_last();
        let last = list.last();
        assert forall|i: int, j: int| 0 <= i < j < head.len() implies !listed_before(
            #[trigger] head[j],
            #[trigger] head[i],
        ) by {}
        lemma_insert_info_keeps_order(head, x);
        lemma_insert_info_keeps_entries(head, x);
        let inner = insert_info(head, x);
        lemma_lex_total(x.name, last.name);
        assert forall|i: int, j: int| 0 <= i < j < after.len() implies !listed_before(
            #[trigger] after[j],
            #[trigger] after[i],
        ) by {
            if j >= inner.len() {
                broadcast use vstd::seq_lib::group_to_multiset_ensures;

                assert(inner.to_multiset().count(inner[i]) > 0);
            }
        }
    } else {
        assert forall|i: int, j: int| 0 <= i < j < after.len() implies !listed_before(
            #[trigger] after[j],
            #[trigger] after[i],
        ) by {
            if j >= list.len() {
                if i < list.len() - 1 {
                    lemma_listed_order(list[i], list.last(), x);
                }
            }
        }
    }
}

/// A listing is sorted by socket and name.
pub proof fn lemma_listing_is_sorted(domains: Seq<RaplDomain>, sockets: Set<u32>)
    ensures
        is_sorted_listing(listing(domains, sockets)),
    decreases domains.len(),
{
    if domains.len() > 0 {
        lemma_listing_is_sorted(domains.drop_last(), sockets);
        if sockets.contains(domains.last().socket) {
            lemma_insert_info_keeps_order(
                listing(domains.drop_last(), sockets),
                info_of(domains.last()),
            );
        }
    }
}

/// The views of a list of entries.
pub open spec fn infos_of(infos: Seq<DomainInfo>) -> Seq<InfoText> {
    Seq::new(infos.len(), |i: int| infos[i]@)
}

/// Whether `infos` is the list of the counters of `domains` that the
/// socket filter `spec` selects.
pub open spec fn is_listing_of(
    infos: Seq<DomainInfo>,
    domains: Seq<RaplDomain>,
    spec: Option<Seq<char>>,
) -> bool {
    infos_of(infos) == listing(domains, selected_sockets(spec, socket_set(domains)))
}

fn info_before(a: &DomainInfo, b: &DomainInfo) -> (r: bool)
    ensures
        r == listed_before(a@, b@),
{
    a.socket < b.socket || (a.socket == b.socket && text_less(a.name.as_str(), b.name.as_str()))
}

fn insert_sorted(infos: &mut Vec<DomainInfo>, x: DomainInfo)
    ensures
        infos_of(final(infos)@) == insert_info(infos_of(old(infos)@), x@),
{
    let ghost list = infos_of(infos@);
    let mut pos: usize = infos.len();
    proof {
        assert(list.take(pos as int) =~= list);
    }
    while pos > 0 && info_before(&x, &infos[pos - 1])
        invariant
            pos <= infos@.len(),
            *infos == *old(infos),
            list == infos_of(infos@),
            insert_info(list, x@) == insert_info(list.take(pos as int), x@) + list.skip(pos as int),
        decreases pos,
    {
        proof {
            let head = list.take(pos as int);
            assert(head.drop_last() =~= list.take(pos - 1));
        }
        pos -= 1;
    }
    infos.insert(pos, x);
}

fn contains_socket(v: &Vec<u32>, s: u32) -> (b: bool)
    ensures
        b == v@.to_set().contains(s),
{
    let mut i: usize = 0;
    while i < v.len()
        invariant
            i <= v.len(),
            forall|j: int| 0 <= j < i ==> v@[j] != s,
        decreases v.len() - i,
    {
        if v[i] == s {
            return true;
        }
        i += 1;
    }
    false
}

/// The counters of `domains` on the sockets that `args` ask for, as they
/// are listed: by socket, then by name.
pub fn run_list_domains(args: ListArgs, domains: &[RaplDomain]) -> (r: Result<
    Vec<DomainInfo>,
    JouleProfilerError,
>)
    ensures
        match socket_filter_fault(text_of(args.sockets), socket_set(domains@)) {
            Some(fault) => r matches Err(e) && e@ == fault,
            None => r matches Ok(infos) && is_listing_of(infos@, domains@, text_of(args.sockets)),
        },
{
    let sockets = match &args.sockets {
        Some(spec) => match parse_sockets(spec.as_str(), domains) {
            Ok(v) => v,
            Err(e) => {
                return Err(e);
            },
        },
        None => discover_sockets(domains),
    };
    let ghost chosen = selected_sockets(text_of(args.sockets), socket_set(domains@));
    let mut infos: Vec<DomainInfo> = Vec::new();
    let mut i: usize = 0;
    while i < domains.len()
        invariant
            i <= domains@.len(),
            sockets@.to_set() == chosen,
            infos_of(infos@) == listing(domains@.take(i as int), chosen),
        decreases domains@.len() - i,
    {
        let d = &domains[i];
        proof {
            assert(domains@.take(i + 1).drop_last() =~= domains@.take(i as int));
        }
        if contains_socket(&sockets, d.socket) {
            let info = DomainInfo {
                socket: d.socket,
                name: to_uppercase(d.name.as_str()),
                raw_name: d.name.clone(),
                path: d.path.clone(),
            };
            insert_sorted(&mut infos, info);
        }
        i += 1;
    }
    proof {
        assert(domains@.take(i as int) =~= domains@);
    }
    Ok(infos)
}

} // verus!
