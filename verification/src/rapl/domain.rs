//! Counter identities and socket selection.

use vstd::prelude::*;
use vstd::string::*;
use crate::errors::{Failure, IoFailure, IoReport, JouleProfilerError};
use crate::text::{
    lemma_split_nonempty,
    parse_decimal,
    parse_u32,
    parse_u64,
    same_text,
    split_on,
    split_text,
    strip_prefix,
    texts_of,
    trim,
    trimmed,
    without_prefix,
};

verus! {

/// One energy counter: where it is read, what it is called, the socket it
/// belongs to and, where known, the largest value it can show.
#[derive(Debug)]
pub struct RaplDomain {
    /// The place the counter is read from; also its identity in snapshots.
    pub path: String,
    /// The name of the accounting domain.
    pub name: String,
    /// The index of the processor package.
    pub socket: u32,
    /// The range of the counter in microjoules.
    pub max_energy_uj: Option<u64>,
}

impl Clone for RaplDomain {
    fn clone(&self) -> (r: Self)
        ensures
            r == *self,
    {
        RaplDomain {
            path: self.path.clone(),
            name: self.name.clone(),
            socket: self.socket,
            max_energy_uj: self.max_energy_uj,
        }
    }
}

/// The sockets that the counters in `domains` belong to.
pub open spec fn socket_set(domains: Seq<RaplDomain>) -> Set<u32> {
    Set::new(|s: u32| exists|i: int| 0 <= i < domains.len() && #[trigger] domains[i].socket == s)
}

/// Every element is smaller than the ones behind it.
pub open spec fn strictly_increasing(v: Seq<u32>) -> bool {
    forall|i: int, j: int| 0 <= i < j < v.len() ==> v[i] < v[j]
}

/// There is only one way to write a set as a strictly increasing list.
pub proof fn lemma_increasing_list_is_unique(a: Seq<u32>, b: Seq<u32>)
    requires
        strictly_increasing(a),
        strictly_increasing(b),
        a.to_set() == b.to_set(),
    ensures
        a == b,
    decreases a.len(),
{
    if a.len() == 0 {
        if b.len() > 0 {
            assert(b.to_set().contains(b[0]));
        }
    } else {
        assert(a.to_set().contains(a.last()));
        assert(b.to_set().contains(b.last()));
        // The largest element is the last one on both sides.
        assert(a.last() == b.last());
        let a0 = a.drop_last();
        let b0 = b.drop_last();
        assert forall|x: u32| a0.to_set().contains(x) <==> b0.to_set().contains(x) by {
            if a0.contains(x) {
                assert(a.to_set().contains(x));
                let j = b.index_of(x);
                assert(b0[j] == x);
            }
            if b0.contains(x) {
                assert(b.to_set().contains(x));
                let j = a.index_of(x);
                assert(a0[j] == x);
            }
        }
        assert(a0.to_set() =~= b0.to_set());
        lemma_increasing_list_is_unique(a0, b0);
        assert(a =~= a0.push(a.last()));
    }
}

/// Puts `s` at its place in the increasing list `v`, unless it is there.
pub fn insert_socket(v: &mut Vec<u32>, s: u32)
    requires
        strictly_increasing(old(v)@),
    ensures
        strictly_increasing(final(v)@),
        final(v)@.to_set() == old(v)@.to_set().insert(s),
{
    let mut i: usize = 0;
    while i < v.len() && v[i] < s
        invariant
            i <= v.len(),
            *v == *old(v),
            forall|j: int| 0 <= j < i ==> v@[j] < s,
        decreases v.len() - i,
    {
        i += 1;
    }
    if i == v.len() || v[i] != s {
        v.insert(i, s);
        proof {
            let before = old(v)@;
            let after = v@;
            assert forall|a: int, b: int| 0 <= a < b < after.len() implies after[a] < after[b] by {}
            assert forall|x: u32| after.to_set().contains(x) <==> before.to_set().insert(
                s,
            ).contains(x) by {
                if before.contains(x) {
                    let j = before.index_of(x);
                    if j < i {
                        assert(after[j] == x);
                    } else {
                        assert(after[j + 1] == x);
                    }
                }
                if x == s {
                    assert(after[i as int] == s);
                }
            }
        }
    }
}

/// The sockets that occur in `domains`, each once, in increasing order.
pub fn discover_sockets(domains: &[RaplDomain]) -> (v: Vec<u32>)
    ensures
        strictly_increasing(v@),
        v@.to_set() == socket_set(domains@),
{
    let mut v: Vec<u32> = Vec::new();
    let mut i: usize = 0;
    while i < domains.len()
        invariant
            i <= domains@.len(),
            strictly_increasing(v@),
            v@.to_set() == socket_set(domains@.take(i as int)),
        decreases domains@.len() - i,
    {
        let ghost before = v@.to_set();
        insert_socket(&mut v, domains[i].socket);
        proof {
            let next = domains@.take(i + 1);
            assert forall|s: u32| socket_set(next).contains(s) <==> before.insert(
                domains@[i as int].socket,
            ).contains(s) by {
                if s == domains@[i as int].socket {
                    assert(next[i as int].socket == s);
                }
            }
        }
        i += 1;
    }
    proof {
        assert(domains@.take(i as int) =~= domains@);
    }
    v
}

/// The sockets that the tokens `pieces` of a filter name, in the order of
/// the tokens. A token is read without the white space around it; one that
/// is then empty is passed over. The first token that is not a number, or
/// names a socket outside `known`, decides the fault.
pub open spec fn filter_tokens(pieces: Seq<Seq<char>>, known: Set<u32>) -> Result<
    Seq<u32>,
    Failure,
>
    decreases pieces.len(),
{
    if pieces.len() == 0 {
        Ok(Seq::<u32>::empty())
    } else {
        match filter_tokens(pieces.drop_last(), known) {
            Err(fault) => Err(fault),
            Ok(chosen) => {
                let token = trimmed(pieces.last());
                if token.len() == 0 {
                    Ok(chosen)
                } else {
                    match parse_decimal(token, u32::MAX as nat) {
                        Err(_) => Err(Failure::InvalidSocketSpec(token)),
                        Ok(n) => if known.contains(n as u32) {
                            Ok(chosen.push(n as u32))
                        } else {
                            Err(Failure::SocketNotFound(n as u32))
                        },
                    }
                }
            },
        }
    }
}

/// A fault among the first tokens is the fault of the whole filter.
pub proof fn lemma_filter_fault_stays(pieces: Seq<Seq<char>>, k: nat, known: Set<u32>)
    requires
        k <= pieces.len(),
    ensures
        filter_tokens(pieces.take(k as int), known) matches Err(fault) ==> filter_tokens(
            pieces,
            known,
        ) == Err::<Seq<u32>, Failure>(fault),
    decreases pieces.len(),
{
    if k == pieces.len() {
        assert(pieces.take(k as int) =~= pieces);
    } else {
        assert(pieces.drop_last().take(k as int) =~= pieces.take(k as int));
        lemma_filter_fault_stays(pieces.drop_last(), k, known);
    }
}

/// The empty filter names no socket and is not refused, whatever sockets
/// are known.
pub proof fn lemma_empty_filter_names_nothing(known: Set<u32>)
    ensures
        filter_tokens(split_on(Seq::<char>::empty(), ','), known) == Ok::<Seq<u32>, Failure>(
            Seq::<u32>::empty(),
        ),
{
    let pieces = split_on(Seq::<char>::empty(), ',');
    assert(filter_tokens(pieces.drop_last(), known) == Ok::<Seq<u32>, Failure>(
        Seq::<u32>::empty(),
    ));
}

fn contains_socket(v: &Vec<u32>, s: u32) -> (b: bool)
    ensures
        b == v@.contains(s),
{
    let mut i: usize = 0;
    while i < v.len()
        invariant
            i <= v.len(),
            forall|j: int| 0 <= j < i ==> v@[j] != s,
        decreases v.len() - i,
    {
        if v[i] == s {
            return true;
        }
        i += 1;
    }
    false
}

/// Reads a socket filter: numbers separated by commas, each of which must
/// be the socket of a counter in `domains`.
///
/// The result holds each socket named once, in increasing order. A filter
/// that names none selects every socket of `domains`.
pub fn parse_sockets(spec: &str, domains: &[RaplDomain]) -> (r: Result<
    Vec<u32>,
    JouleProfilerError,
>)
    ensures
        match filter_tokens(split_on(spec@, ','), socket_set(domains@)) {
            Ok(chosen) => r matches Ok(v) && strictly_increasing(v@) && v@.to_set() == (
            if chosen.len() == 0 {
                socket_set(domains@)
            } else {
                chosen.to_set()
            }),
            Err(fault) => r matches Err(e) && e@ == fault,
        },
{
    let all = discover_sockets(domains);
    let pieces = split_text(spec, ',');
    let ghost known = socket_set(domains@);
    let ghost parts = split_on(spec@, ',');
    let mut res: Vec<u32> = Vec::new();
    let ghost mut chosen: Seq<u32> = Seq::empty();
    let mut i: usize = 0;
    while i < pieces.len()
        invariant
            i <= pieces@.len(),
            parts == texts_of(pieces@),
            parts == split_on(spec@, ','),
            known == socket_set(domains@),
            all@.to_set() == known,
            filter_tokens(parts.take(i as int), known) == Ok::<Seq<u32>, Failure>(chosen),
            strictly_increasing(res@),
            res@.to_set() == chosen.to_set(),
            chosen.len() == 0 <==> res@.len() == 0,
        decreases pieces@.len() - i,
    {
        let token = trim(pieces[i]);
        proof {
            assert(parts.take(i + 1).drop_last() =~= parts.take(i as int));
            lemma_filter_fault_stays(parts, (i + 1) as nat, known);
        }
        if !token.is_empty() {
            match parse_u32(token) {
                Err(_) => {
                    return Err(JouleProfilerError::InvalidSocketSpec(token.to_owned()));
                },
                Ok(s) => {
                    if !contains_socket(&all, s) {
                        return Err(JouleProfilerError::SocketNotFound(s));
                    }
                    let ghost before = chosen;
                    insert_socket(&mut res, s);
                    proof {
                        chosen = chosen.push(s);
                        assert forall|x: u32| chosen.to_set().contains(x) <==> before.to_set().insert(
                            s,
                        ).contains(x) by {
                            if before.contains(x) {
                                let j = before.index_of(x);
                                assert(chosen[j] == x);
                            }
                            if x == s {
                                assert(chosen[before.len() as int] == s);
                            }
                        }
                        assert(res@.to_set().contains(s));
                    }
                },
            }
        }
        i += 1;
    }
    proof {
        assert(parts.take(i as int) =~= parts);
    }
    if res.len() == 0 {
        return Ok(all);
    }
    Ok(res)
}

/// Why the socket filter `spec` is refused, if it is. No filter at all is
/// never refused.
pub open spec fn socket_filter_fault(spec: Option<Seq<char>>, known: Set<u32>) -> Option<Failure> {
    match spec {
        None => None,
        Some(text) => match filter_tokens(split_on(text, ','), known) {
            Err(fault) => Some(fault),
            Ok(_) => None,
        },
    }
}

/// The sockets that the filter `spec` selects among `known`: those it
/// names, or all of them where it names none or there is no filter.
pub open spec fn selected_sockets(spec: Option<Seq<char>>, known: Set<u32>) -> Set<u32> {
    match spec {
        None => known,
        Some(text) => match filter_tokens(split_on(text, ','), known) {
            Ok(chosen) => if chosen.len() == 0 {
                known
            } else {
                chosen.to_set()
            },
            Err(_) => known,
        },
    }
}

/// The counters of `domains` that belong to one of `sockets`, in their
/// order.
pub open spec fn domains_on<'a>(domains: Seq<RaplDomain>, sockets: Seq<u32>) -> Seq<&'a RaplDomain>
    decreases domains.len(),
{
    if domains.len() == 0 {
        Seq::empty()
    } else {
        let earlier = domains_on(domains.drop_last(), sockets);
        if sockets.contains(domains.last().socket) {
            earlier.push(&domains.last())
        } else {
            earlier
        }
    }
}

/// The counters of `domains` that belong to one of `sockets`.
pub fn select_domains<'a>(domains: &'a [RaplDomain], sockets: &Vec<u32>) -> (v: Vec<&'a RaplDomain>)
    ensures
        v@ == domains_on(domains@, sockets@),
{
    let mut v: Vec<&'a RaplDomain> = Vec::new();
    let mut i: usize = 0;
    while i < domains.len()
        invariant
            i <= domains@.len(),
            v@ == domains_on(domains@.take(i as int), sockets@),
        decreases domains@.len() - i,
    {
        proof {
            assert(domains@.take(i + 1).drop_last() =~= domains@.take(i as int));
        }
        if contains_socket(sockets, domains[i].socket) {
            v.push(&domains[i]);
        }
        i += 1;
    }
    proof {
        assert(domains@.take(i as int) =~= domains@);
    }
    v
}

/// The socket that one component of a path names: the number between
/// the prefix `intel-rapl:` and the next colon, where the component has
/// that form.
pub open spec fn socket_in_component(component: Seq<char>) -> Option<u32> {
    match without_prefix(component, "intel-rapl:"@) {
        Some(rest) => match parse_decimal(split_on(rest, ':').first(), u32::MAX as nat) {
            Ok(n) => Some(n as u32),
            Err(_) => None,
        },
        None => None,
    }
}

/// The socket that the first of `components` to name one names.
pub open spec fn first_socket(components: Seq<Seq<char>>) -> Option<u32>
    decreases components.len(),
{
    if components.len() == 0 {
        None
    } else {
        match socket_in_component(components.first()) {
            Some(n) => Some(n),
            None => first_socket(components.drop_first()),
        }
    }
}

/// The socket of the counter at `path`: the one that the first component
/// of the path to name one names, else socket 0.
pub open spec fn socket_of_path(path: Seq<char>) -> u32 {
    match first_socket(split_on(path, '/')) {
        Some(n) => n,
        None => 0,
    }
}

fn component_socket(component: &str) -> (r: Option<u32>)
    ensures
        r == socket_in_component(component@),
{
    match strip_prefix(component, "intel-rapl:") {
        Some(rest) => {
            let pieces = split_text(rest, ':');
            proof {
                lemma_split_nonempty(rest@, ':');
            }
            match parse_u32(pieces[0]) {
                Ok(n) => Some(n),
                Err(_) => None,
            }
        },
        None => None,
    }
}

/// The socket of the counter at `path`.
pub fn extract_socket_number(path: &str) -> (socket: u32)
    ensures
        socket == socket_of_path(path@),
{
    let components = split_text(path, '/');
    let ghost all = split_on(path@, '/');
    let mut i: usize = 0;
    proof {
        assert(all.skip(0) =~= all);
    }
    while i < components.len()
        invariant
            i <= components@.len(),
            all == texts_of(components@),
            all == split_on(path@, '/'),
            first_socket(all) == first_socket(all.skip(i as int)),
        decreases components@.len() - i,
    {
        proof {
            assert(all.skip(i as int).drop_first() =~= all.skip(i + 1));
        }
        match component_socket(components[i]) {
            Some(n) => {
                return n;
            },
            None => {},
        }
        i += 1;
    }
    0
}

/// Whether a directory of this name holds counters.
pub fn is_rapl_entry(name: &str) -> (b: bool)
    ensures
        b == "intel-rapl:"@.is_prefix_of(name@),
{
    strip_prefix(name, "intel-rapl:").is_some()
}

/// The name of a domain from the text of its name file: the text without
/// white space at its ends, or `unknown` where the file gave nothing.
pub open spec fn domain_name_of(name_text: Option<Seq<char>>) -> Seq<char> {
    match name_text {
        Some(t) => trimmed(t),
        None => "unknown"@,
    }
}

/// The range of a counter from the text of its range file: the number in
/// it, where there is a file and a number in it.
pub open spec fn max_energy_of(max_text: Option<Seq<char>>) -> Option<u64> {
    match max_text {
        Some(t) => match parse_decimal(trimmed(t), u64::MAX as nat) {
            Ok(n) => Some(n as u64),
            Err(_) => None,
        },
        None => None,
    }
}

/// The view of an optional string slice.
pub open spec fn slice_text(t: Option<&str>) -> Option<Seq<char>> {
    match t {
        Some(s) => Some(s@),
        None => None,
    }
}

/// The counter found in the directory `dir`, whose energy file is at
/// `energy_path`, from what its name file and its range file hold.
pub fn domain_from_entry(
    energy_path: String,
    dir: &str,
    name_text: Option<&str>,
    max_text: Option<&str>,
) -> (d: RaplDomain)
    ensures
        d.path == energy_path,
        d.name@ == domain_name_of(slice_text(name_text)),
        d.socket == socket_of_path(dir@),
        d.max_energy_uj == max_energy_of(slice_text(max_text)),
{
    let name = match name_text {
        Some(t) => trim(t).to_owned(),
        None => String::from_str("unknown"),
    };
    let socket = extract_socket_number(dir);
    let max_energy_uj = match max_text {
        Some(t) => match parse_u64(trim(t)) {
            Ok(n) => Some(n),
            Err(_) => None,
        },
        None => None,
    };
    RaplDomain { path: energy_path, name, socket, max_energy_uj }
}

/// The counters that a scan found, or the failure to find any.
pub fn discover_domains(found: Vec<RaplDomain>) -> (r: Result<Vec<RaplDomain>, JouleProfilerError>)
    ensures
        found@.len() == 0 ==> (r matches Err(e) && e@ == Failure::NoDomains),
        found@.len() > 0 ==> r == Ok::<Vec<RaplDomain>, JouleProfilerError>(found),
{
    if found.len() == 0 {
        return Err(JouleProfilerError::NoDomains);
    }
    Ok(found)
}

/// Whether the platform `os` has the energy interface: only Linux has.
pub fn check_os(os: &str) -> (r: Result<(), JouleProfilerError>)
    ensures
        os@ == "linux"@ ==> r is Ok,
        os@ != "linux"@ ==> (r matches Err(e) && e@ == Failure::UnsupportedOS(os@)),
{
    if same_text(os, "linux") {
        Ok(())
    } else {
        Err(JouleProfilerError::UnsupportedOS(os.to_owned()))
    }
}

/// Whether the energy interface can be used at `base`, from what a look
/// at that path showed: whether it exists, whether it is a directory, and
/// the failure to list it, if listing failed.
pub fn check_rapl(base: &str, exists: bool, is_dir: bool, listing: Option<IoReport>) -> (r: Result<
    (),
    JouleProfilerError,
>)
    ensures
        !exists ==> (r matches Err(e) && e@ == Failure::RaplNotAvailable(base@)),
        exists && !is_dir ==> (r matches Err(e) && e@ == Failure::InvalidRaplPath(base@)),
        exists && is_dir ==> match listing {
            None => r is Ok,
            Some(report) => r matches Err(e) && e@ == (match report.kind {
                IoFailure::NotFound => Failure::RaplNotAvailable(report.text@),
                IoFailure::PermissionDenied => Failure::InsufficientPermissions,
                IoFailure::Other => Failure::RaplReadError(report.text@),
            }),
        },
{
    if !exists {
        return Err(JouleProfilerError::RaplNotAvailable(base.to_owned()));
    }
    if !is_dir {
        return Err(JouleProfilerError::InvalidRaplPath(base.to_owned()));
    }
    match listing {
        None => Ok(()),
        Some(report) => Err(JouleProfilerError::from_io(report)),
    }
}

/// Where the energy interface is looked for: at the path given on the
/// command line, else at the path found in the environment, else at the
/// usual place.
pub fn rapl_base_path(config_override: Option<&String>, from_environment: Option<String>) -> (path:
    String)
    ensures
        path@ == (match config_override {
            Some(p) => p@,
            None => match from_environment {
                Some(p) => p@,
                None => "/sys/devices/virtual/powercap/intel-rapl"@,
            },
        }),
{
    match config_override {
        Some(p) => p.clone(),
        None => match from_environment {
            Some(p) => p,
            None => String::from_str("/sys/devices/virtual/powercap/intel-rapl"),
        },
    }
}

} // verus!
