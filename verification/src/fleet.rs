//! Stations on a site find each other by service discovery and elect a
//! lead without a coordination round: every station computes the same
//! minimum over the stations it knows. What a station advertises, how an
//! advertisement is read back, and the election itself live here; the
//! discovery daemon is the caller's.

use vstd::prelude::*;

use crate::text::{append_str, chars_of, decimal, decimal_string, seq_lt, slice_chars, str_eq, str_lt, string_of, strip_trailing, strip_trailing_text};

verus! {

/// Why the fleet service could not do what was asked.
#[derive(Debug, PartialEq, Eq)]
pub enum FleetError {
    Mdns(String),
    Invalid(String),
}

impl FleetError {
    /// The operator-facing text of this error.
    pub fn message(&self) -> (r: String)
        ensures
            r@ == match *self {
                FleetError::Mdns(s) => "mdns daemon error: "@ + s@,
                FleetError::Invalid(s) => "invalid configuration: "@ + s@,
            },
    {
        let (prefix, s) = match self {
            FleetError::Mdns(s) => ("mdns daemon error: ", s),
            FleetError::Invalid(s) => ("invalid configuration: ", s),
        };
        let mut out = String::from_str(prefix);
        append_str(&mut out, s.as_str());
        out
    }
}


/// Stable per-station identity.
#[derive(Debug, PartialEq, Eq, Hash)]
pub struct StationId(pub String);

impl Clone for StationId {
    fn clone(&self) -> (r: Self)
        ensures
            r == *self,
    {
        StationId(self.0.clone())
    }
}

impl View for StationId {
    type V = Seq<char>;

    open spec fn view(&self) -> Seq<char> {
        self.0@
    }
}

impl StationId {
    pub fn from(s: &str) -> (r: StationId)
        ensures
            r@ == s@,
    {
        StationId(String::from_str(s))
    }

    pub fn as_str(&self) -> (r: &str)
        ensures
            r@ == self@,
    {
        self.0.as_str()
    }
}

/// What a station does on the site.
#[derive(Debug, Clone, Copy, PartialEq, Eq, Structural)]
pub enum StationRole {
    /// Holds canonical configuration and the audit log for the site.
    Lead,
    /// Regular station.
    Member,
    /// Operator console; takes part in discovery only.
    Console,
    /// Multi-site coordinator.
    Hub,
}

/// The advertised name of a role.
pub open spec fn role_text(r: StationRole) -> Seq<char> {
    match r {
        StationRole::Lead => "lead"@,
        StationRole::Member => "member"@,
        StationRole::Console => "console"@,
        StationRole::Hub => "hub"@,
    }
}

/// The role an advertised name stands for; anything unknown is a member.
pub open spec fn role_of_text(s: Seq<char>) -> StationRole {
    if s == "lead"@ {
        StationRole::Lead
    } else if s == "console"@ {
        StationRole::Console
    } else if s == "hub"@ {
        StationRole::Hub
    } else {
        StationRole::Member
    }
}

pub fn role_to_str(r: StationRole) -> (s: &'static str)
    ensures
        s@ == role_text(r),
{
    match r {
        StationRole::Lead => "lead",
        StationRole::Member => "member",
        StationRole::Console => "console",
        StationRole::Hub => "hub",
    }
}

pub fn role_from_str(s: &str) -> (r: StationRole)
    ensures
        r == role_of_text(s@),
{
    if str_eq(s, "lead") {
        StationRole::Lead
    } else if str_eq(s, "console") {
        StationRole::Console
    } else if str_eq(s, "hub") {
        StationRole::Hub
    } else {
        StationRole::Member
    }
}

/// What a station knows about itself or a peer. `started_at` is in Unix
/// seconds.
#[derive(Debug, PartialEq, Eq)]
pub struct StationInfo {
    pub id: StationId,
    pub hostname: String,
    pub role: StationRole,
    pub version: String,
    pub api_port: u16,
    pub started_at: i64,
    pub active_jobs: u32,
    pub last_seen: Option<i64>,
}

impl StationInfo {
    /// Election order: earlier start first, then the smaller id.
    pub fn election_key(&self) -> (r: (i64, &str))
        ensures
            r.0 == self.started_at,
            r.1@ == self.id@,
    {
        (self.started_at, self.id.0.as_str())
    }
}

/// `a` ranks ahead of `b` for lead.
pub open spec fn ahead(a: StationInfo, b: StationInfo) -> bool {
    a.started_at < b.started_at || (a.started_at == b.started_at && seq_lt(a.id@, b.id@))
}

/// The first station no other station ranks ahead of.
pub open spec fn is_lead_index(ss: Seq<StationInfo>, i: int) -> bool {
    &&& 0 <= i < ss.len()
    &&& forall|j: int| 0 <= j < ss.len() ==> !ahead(#[trigger] ss[j], ss[i])
    &&& forall|j: int| 0 <= j < i ==> ahead(ss[i], #[trigger] ss[j]) || ss[i].started_at != ss[j].started_at || ss[i].id@ != ss[j].id@
}

fn ahead_exec(a: &StationInfo, b: &StationInfo) -> (r: bool)
    ensures
        r == ahead(*a, *b),
{
    a.started_at < b.started_at || (a.started_at == b.started_at && str_lt(a.id.0.as_str(), b.id.0.as_str()))
}

/// The elected lead among the known stations: the earliest started, ties
/// broken by the smaller id, the first such on a full tie. Every station
/// computing this over the same set agrees.
pub fn current_lead(stations: &[StationInfo]) -> (r: Option<StationId>)
    ensures
        stations@.len() == 0 ==> r is None,
        stations@.len() > 0 ==> exists|i: int| is_lead_index(stations@, i) && r == Some(stations@[i].id),
{
    if stations.len() == 0 {
        return None;
    }
    let mut best: usize = 0;
    proof {
        crate::text::lemma_seq_lt_irreflexive(stations@[0].id@);
    }
    for i in 1..stations.len()
        invariant
            best < i <= stations@.len(),
            forall|j: int| 0 <= j < i ==> !ahead(#[trigger] stations@[j], stations@[best as int]),
            forall|j: int| 0 <= j < best ==> ahead(stations@[best as int], #[trigger] stations@[j])
                || stations@[best as int].started_at != stations@[j].started_at || stations@[best as int].id@ != stations@[j].id@,
    {
        if ahead_exec(&stations[i], &stations[best]) {
            proof {
                let b = stations@[best as int];
                let n = stations@[i as int];
                assert forall|j: int| 0 <= j < i + 1 implies !ahead(#[trigger] stations@[j], n) by {
                    let s = stations@[j];
                    if j != i as int && ahead(s, n) {
                        if s.started_at == n.started_at && n.started_at == b.started_at {
                            crate::text::lemma_seq_lt_transitive(s.id@, n.id@, b.id@);
                        } else if s.started_at == n.started_at {
                            crate::text::lemma_seq_lt_irreflexive(s.id@);
                        }
                    }
                    if j == i as int {
                        if ahead(s, n) {
                            crate::text::lemma_seq_lt_irreflexive(s.id@);
                        }
                    }
                }
                assert forall|j: int| 0 <= j < i implies ahead(n, #[trigger] stations@[j])
                    || n.started_at != stations@[j].started_at || n.id@ != stations@[j].id@ by {
                    let s = stations@[j];
                    if !ahead(s, b) && n.started_at == s.started_at && n.id@ == s.id@ {
                        assert(ahead(s, b));
                    }
                }
            }
            best = i;
        } else {
            proof {
                let b = stations@[best as int];
                let n = stations@[i as int];
                assert forall|j: int| 0 <= j < i + 1 implies !ahead(#[trigger] stations@[j], b) by {}
            }
        }
    }
    proof {
        assert(is_lead_index(stations@, best as int));
    }
    Some(stations[best].id.clone())
}

/// The station is the lead exactly when the election picks its id.
pub fn is_lead(stations: &[StationInfo], self_id: &StationId) -> (r: bool)
    ensures
        stations@.len() > 0 ==> (r <==> exists|i: int| is_lead_index(stations@, i) && stations@[i].id@ == self_id@),
        stations@.len() == 0 ==> !r,
{
    match current_lead(stations) {
        Some(l) => {
            proof {
                let i = choose|i: int| is_lead_index(stations@, i) && Some(l) == Some(stations@[i].id);
                assert forall|k: int| is_lead_index(stations@, k) implies stations@[k].id@ == stations@[i].id@ by {
                    lemma_lead_unique(stations@, i, k);
                }
            }
            str_eq(l.0.as_str(), self_id.0.as_str())
        },
        None => false,
    }
}

proof fn lemma_lead_unique(ss: Seq<StationInfo>, i: int, k: int)
    requires
        is_lead_index(ss, i),
        is_lead_index(ss, k),
    ensures
        ss[i].id@ == ss[k].id@,
{
    let a = ss[i];
    let b = ss[k];
    assert(!ahead(a, b) && !ahead(b, a));
    if a.id@ != b.id@ {
        crate::text::lemma_seq_lt_total(a.id@, b.id@);
    }
}

/// A recomputed lead differs from the last one announced.
pub open spec fn lead_changed_spec(last: Option<StationId>, new: Option<StationId>) -> bool {
    match (last, new) {
        (Some(a), Some(b)) => a@ != b@,
        (None, None) => false,
        _ => true,
    }
}

/// Does a recomputed lead differ from the last one announced?
pub fn lead_changed(last: &Option<StationId>, new: &Option<StationId>) -> (r: bool)
    ensures
        r == lead_changed_spec(*last, *new),
{
    match (last, new) {
        (Some(a), Some(b)) => !str_eq(a.0.as_str(), b.0.as_str()),
        (None, None) => false,
        _ => true,
    }
}

/// `s` with every trailing copy of `suffix` removed
/// (`str::trim_end_matches` with a string).
pub open spec fn strip_suffixes(s: Seq<char>, suffix: Seq<char>) -> Seq<char>
    decreases s.len(),
{
    if suffix.len() > 0 && suffix.len() <= s.len() && s.subrange(s.len() - suffix.len(), s.len() as int) == suffix {
        strip_suffixes(s.subrange(0, s.len() - suffix.len()), suffix)
    } else {
        s
    }
}

/// The host name under `.local.`, as multicast DNS requires.
pub open spec fn dotted_host(host: Seq<char>) -> Seq<char> {
    strip_suffixes(strip_trailing(host, '.'), ".local"@) + ".local."@
}

/// Does the first `n` characters end in `.local`?
fn ends_with_local(cs: &Vec<char>, n: usize) -> (r: bool)
    requires
        n <= cs@.len(),
    ensures
        r == (6 <= n && cs@.subrange(0, n as int).subrange(n - 6, n as int) == ".local"@),
{
    if n < 6 {
        return false;
    }
    let suffix = chars_of(".local");
    let tail = slice_chars(cs, n - 6, n);
    assert(cs@.subrange(0, n as int).subrange(n - 6, n as int) =~= tail@);
    crate::text::chars_eq(&tail, &suffix)
}

/// Put a host name under `.local.`.
pub fn ensure_dot(host: &str) -> (r: String)
    ensures
        r@ == dotted_host(host@),
{
    let trimmed = strip_trailing_text(host, '.');
    let cs = chars_of(trimmed.as_str());
    proof {
        reveal_strlit(".local");
    }
    let mut n: usize = cs.len();
    assert(cs@.subrange(0, n as int) =~= cs@);
    while ends_with_local(&cs, n)
        invariant
            n <= cs@.len(),
            strip_suffixes(cs@, ".local"@) == strip_suffixes(cs@.subrange(0, n as int), ".local"@),
        decreases n,
    {
        assert(cs@.subrange(0, n as int).subrange(0, n - 6) =~= cs@.subrange(0, n - 6));
        n = n - 6;
    }
    let base = slice_chars(&cs, 0, n);
    let mut out = string_of(&base);
    append_str(&mut out, ".local.");
    out
}

/// The text before the first `.`.
pub open spec fn first_label(s: Seq<char>) -> Seq<char>
    decreases s.len(),
{
    if s.len() == 0 || s[0] == '.' { Seq::empty() } else { seq![s[0]] + first_label(s.drop_first()) }
}

/// The station id in a service's full name, `wipestation-<id>.…`.
pub open spec fn id_in_fullname(fullname: Seq<char>) -> Option<Seq<char>> {
    let name = first_label(fullname);
    let prefix = "wipestation-"@;
    if prefix.len() <= name.len() && name.subrange(0, prefix.len() as int) == prefix {
        Some(name.subrange(prefix.len() as int, name.len() as int))
    } else {
        None
    }
}

/// Read the station id out of a service's full name.
pub fn id_from_fullname(fullname: &str) -> (r: Option<StationId>)
    ensures
        match id_in_fullname(fullname@) {
            Some(id) => r matches Some(s) && s@ == id,
            None => r is None,
        },
{
    let cs = chars_of(fullname);
    let mut k: usize = 0;
    while k < cs.len() && cs[k] != '.'
        invariant
            k <= cs@.len(),
            forall|j: int| 0 <= j < k ==> cs@[j] != '.',
        decreases cs.len() - k,
    {
        k = k + 1;
    }
    proof {
        lemma_first_label(cs@, k as int);
    }
    let name = slice_chars(&cs, 0, k);
    let prefix = chars_of("wipestation-");
    proof {
        reveal_strlit("wipestation-");
    }
    if prefix.len() > name.len() {
        return None;
    }
    let head = slice_chars(&name, 0, prefix.len());
    if !crate::text::chars_eq(&head, &prefix) {
        return None;
    }
    let rest = slice_chars(&name, prefix.len(), name.len());
    Some(StationId(string_of(&rest)))
}

proof fn lemma_first_label(s: Seq<char>, k: int)
    requires
        0 <= k <= s.len(),
        forall|j: int| 0 <= j < k ==> s[j] != '.',
        k == s.len() || s[k] == '.',
    ensures
        first_label(s) == s.subrange(0, k),
    decreases s.len(),
{
    if s.len() > 0 && s[0] != '.' {
        lemma_first_label(s.drop_first(), k - 1);
        assert(seq![s[0]] + s.drop_first().subrange(0, k - 1) =~= s.subrange(0, k));
    } else {
        assert(s.subrange(0, k) =~= Seq::<char>::empty());
    }
}

/// Decimal text of a signed number.
pub open spec fn signed_text(n: int) -> Seq<char> {
    if n < 0 { "-"@ + decimal((-n) as nat) } else { decimal(n as nat) }
}

fn i64_text(n: i64) -> (r: String)
    ensures
        r@ == signed_text(n as int),
{
    if n < 0 {
        let m: u64 = (-(n as i128)) as u64;
        let mut s = String::from_str("-");
        let d = decimal_string(m);
        append_str(&mut s, d.as_str());
        s
    } else {
        decimal_string(n as u64)
    }
}

/// The properties a station advertises, in a fixed order.
pub open spec fn advert_of(info: StationInfo) -> Seq<(Seq<char>, Seq<char>)> {
    seq![
        ("id"@, info.id@),
        ("role"@, role_text(info.role)),
        ("version"@, info.version@),
        ("port"@, decimal(info.api_port as nat)),
        ("started"@, signed_text(info.started_at as int)),
        ("active"@, decimal(info.active_jobs as nat)),
    ]
}

/// Properties seen through their text.
pub open spec fn pairs_view(v: Seq<(String, String)>) -> Seq<(Seq<char>, Seq<char>)> {
    v.map_values(|p: (String, String)| (p.0@, p.1@))
}

/// The discovery properties a station advertises about itself.
pub fn advert_properties(info: &StationInfo) -> (r: Vec<(String, String)>)
    ensures
        pairs_view(r@) == advert_of(*info),
{
    let mut v: Vec<(String, String)> = Vec::new();
    v.push((String::from_str("id"), info.id.0.clone()));
    v.push((String::from_str("role"), String::from_str(role_to_str(info.role))));
    v.push((String::from_str("version"), info.version.clone()));
    v.push((String::from_str("port"), decimal_string(info.api_port as u64)));
    v.push((String::from_str("started"), i64_text(info.started_at)));
    v.push((String::from_str("active"), decimal_string(info.active_jobs as u64)));
    assert(pairs_view(v@) =~= advert_of(*info));
    v
}

/// Digits only.
pub open spec fn all_digits(s: Seq<char>) -> bool {
    forall|i: int| 0 <= i < s.len() ==> '0' <= #[trigger] s[i] && s[i] <= '9'
}

/// The value of a run of decimal digits.
pub open spec fn digits_value(s: Seq<char>) -> int
    decreases s.len(),
{
    if s.len() == 0 { 0 } else { digits_value(s.drop_last()) * 10 + (s.last() as int - '0' as int) }
}

/// What `str::parse` makes of text as an integer: an optional sign, then
/// at least one decimal digit and nothing else; a minus only where the type
/// is signed.
pub open spec fn parsed_int(s: Seq<char>, signed: bool) -> Option<int> {
    if s.len() > 0 && s[0] == '+' {
        let d = s.drop_first();
        if d.len() > 0 && all_digits(d) { Some(digits_value(d)) } else { None }
    } else if signed && s.len() > 0 && s[0] == '-' {
        let d = s.drop_first();
        if d.len() > 0 && all_digits(d) { Some(-digits_value(d)) } else { None }
    } else if s.len() > 0 && all_digits(s) {
        Some(digits_value(s))
    } else {
        None
    }
}

/// Parse an integer within `lo..=hi`, as `str::parse` does for the integer
/// type with that range.
fn parse_in_range(s: &str, signed: bool, lo: i128, hi: i128) -> (r: Option<i128>)
    requires
        -0x8000_0000_0000_0000 <= lo <= 0,
        0 <= hi <= 0xffff_ffff_ffff_ffff,
    ensures
        match parsed_int(s@, signed) {
            Some(v) => if lo <= v <= hi { r == Some(v as i128) } else { r is None },
            None => r is None,
        },
{
    let cs = chars_of(s);
    let mut start: usize = 0;
    let mut neg = false;
    if cs.len() > 0 && cs[0] == '+' {
        start = 1;
    } else if signed && cs.len() > 0 && cs[0] == '-' {
        start = 1;
        neg = true;
    }
    let d = slice_chars(&cs, start, cs.len());
    proof {
        if start == 1 {
            assert(d@ =~= cs@.drop_first());
        } else {
            assert(d@ =~= cs@);
        }
    }
    if d.len() == 0 {
        return None;
    }
    let limit: i128 = if neg { -lo } else { hi };
    let mut acc: i128 = 0;
    let mut over = false;
    let mut i: usize = 0;
    assert(d@.subrange(0, 0) =~= Seq::<char>::empty());
    assert(parsed_int(s@, signed) == (if d@.len() > 0 && all_digits(d@) {
        Some(if neg { -digits_value(d@) } else { digits_value(d@) })
    } else {
        None::<int>
    }));
    while i < d.len()
        invariant
            parsed_int(s@, signed) == (if d@.len() > 0 && all_digits(d@) {
                Some(if neg { -digits_value(d@) } else { digits_value(d@) })
            } else {
                None::<int>
            }),
            limit == (if neg { -lo } else { hi as int }),
            lo <= 0 <= hi,
            i <= d@.len(),
            0 <= limit <= 0xffff_ffff_ffff_ffff,
            all_digits(d@.subrange(0, i as int)),
            !over ==> acc == digits_value(d@.subrange(0, i as int)) && 0 <= acc <= limit,
            over ==> digits_value(d@.subrange(0, i as int)) > limit,
        decreases d.len() - i,
    {
        let c = d[i];
        if !('0' <= c && c <= '9') {
            proof {
                assert(d@[i as int] == c);
            }
            return None;
        }
        let v = (c as u32 - '0' as u32) as i128;
        proof {
            let p = d@.subrange(0, i as int);
            let q = d@.subrange(0, i + 1);
            assert(q.drop_last() =~= p);
            assert(q.last() == c);
            lemma_digits_nonneg(p);
            assert forall|j: int| 0 <= j < q.len() implies '0' <= #[trigger] q[j] && q[j] <= '9' by {
                if j < i { assert(q[j] == p[j]); }
            }
        }
        if !over {
            let next = acc * 10 + v;
            if next > limit {
                over = true;
            } else {
                acc = next;
            }
        } else {
            proof {
                let p = d@.subrange(0, i as int);
                assert(digits_value(p) * 10 + v > limit) by (nonlinear_arith)
                    requires
                        digits_value(p) > limit,
                        0 <= v,
                        limit >= 0;
            }
        }
        i = i + 1;
    }
    assert(d@.subrange(0, d@.len() as int) =~= d@);
    if over {
        return None;
    }
    if neg { Some(-acc) } else { Some(acc) }
}

proof fn lemma_digits_nonneg(s: Seq<char>)
    requires
        all_digits(s),
    ensures
        digits_value(s) >= 0,
    decreases s.len(),
{
    if s.len() > 0 {
        assert forall|j: int| 0 <= j < s.drop_last().len() implies '0' <= #[trigger] s.drop_last()[j] && s.drop_last()[j] <= '9' by {
            assert(s.drop_last()[j] == s[j]);
        }
        lemma_digits_nonneg(s.drop_last());
        assert('0' <= s[s.len() - 1]);
    }
}

/// A number read from an advertisement, or the default when it is absent
/// or does not parse.
pub open spec fn read_or(s: Option<Seq<char>>, signed: bool, lo: int, hi: int, default: int) -> int {
    match s {
        Some(t) => match parsed_int(t, signed) {
            Some(v) => if lo <= v <= hi { v } else { default },
            None => default,
        },
        None => default,
    }
}

fn opt_view_str(s: Option<&str>) -> (r: Option<&str>)
    ensures
        r == s,
{
    s
}

/// The text an option holds, by view.
pub open spec fn opt_text(s: Option<&str>) -> Option<Seq<char>> {
    match s {
        Some(t) => Some(t@),
        None => None,
    }
}

impl Clone for StationInfo {
    fn clone(&self) -> (r: Self)
        ensures
            r == *self,
    {
        StationInfo {
            id: self.id.clone(),
            hostname: self.hostname.clone(),
            role: self.role,
            version: self.version.clone(),
            api_port: self.api_port,
            started_at: self.started_at,
            active_jobs: self.active_jobs,
            last_seen: self.last_seen,
        }
    }
}

/// What the fleet tells its subscribers.
#[derive(Debug, PartialEq, Eq)]
pub enum FleetEvent {
    PeerDiscovered(StationInfo),
    PeerUpdated(StationInfo),
    PeerLost(StationId),
    LeadChanged(Option<StationId>),
}

/// No station id appears twice among the peers.
pub open spec fn ids_unique(ps: Seq<StationInfo>) -> bool {
    forall|i: int, j: int| 0 <= i < j < ps.len() ==> (#[trigger] ps[i]).id@ != (#[trigger] ps[j]).id@
}

/// Where the peer with this id sits, if it is known.
pub open spec fn peer_index(ps: Seq<StationInfo>, id: Seq<char>) -> Option<int> {
    if exists|i: int| 0 <= i < ps.len() && (#[trigger] ps[i]).id@ == id {
        Some(choose|i: int| 0 <= i < ps.len() && (#[trigger] ps[i]).id@ == id)
    } else {
        None
    }
}

proof fn lemma_peer_index(ps: Seq<StationInfo>, id: Seq<char>)
    ensures
        peer_index(ps, id) matches Some(i) ==> 0 <= i < ps.len() && ps[i].id@ == id,
        peer_index(ps, id) is None ==> forall|i: int| 0 <= i < ps.len() ==> (#[trigger] ps[i]).id@ != id,
{
}

fn find_peer(peers: &Vec<StationInfo>, id: &StationId) -> (r: Option<usize>)
    requires
        ids_unique(peers@),
    ensures
        match r {
            Some(k) => peer_index(peers@, id@) == Some(k as int),
            None => peer_index(peers@, id@) is None,
        },
{
    proof {
        lemma_peer_index(peers@, id@);
    }
    for k in 0..peers.len()
        invariant
            ids_unique(peers@),
            forall|j: int| 0 <= j < k ==> (#[trigger] peers@[j]).id@ != id@,
            peer_index(peers@, id@) matches Some(i) ==> 0 <= i < peers@.len() && peers@[i].id@ == id@,
            peer_index(peers@, id@) is None ==> forall|i: int| 0 <= i < peers@.len() ==> (#[trigger] peers@[i]).id@ != id@,
    {
        if str_eq(peers[k].id.0.as_str(), id.0.as_str()) {
            proof {
                let c = choose|i: int| 0 <= i < peers@.len() && (#[trigger] peers@[i]).id@ == id@;
                if c != k {
                    if c < k {
                        assert(peers@[c].id@ != id@);
                    } else {
                        assert(peers@[k as int].id@ != peers@[c].id@);
                    }
                }
            }
            return Some(k);
        }
    }
    None
}

/// Record a peer's advertisement. Our own advertisement echoing back is
/// ignored; a new id is appended and announced as discovered; a known id is
/// replaced in place and announced as updated.
pub fn peer_resolved(peers: &mut Vec<StationInfo>, self_id: &StationId, station: StationInfo) -> (r: Option<FleetEvent>)
    requires
        ids_unique(old(peers)@),
    ensures
        ids_unique(final(peers)@),
        station.id@ == self_id@ ==> r is None && final(peers)@ == old(peers)@,
        station.id@ != self_id@ ==> match peer_index(old(peers)@, station.id@) {
            Some(i) => r == Some(FleetEvent::PeerUpdated(station)) && final(peers)@ == old(peers)@.update(i, station),
            None => r == Some(FleetEvent::PeerDiscovered(station)) && final(peers)@ == old(peers)@.push(station),
        },
{
    if str_eq(station.id.0.as_str(), self_id.0.as_str()) {
        return None;
    }
    proof {
        lemma_peer_index(peers@, station.id@);
    }
    match find_peer(peers, &station.id) {
        Some(i) => {
            let ghost before = peers@;
            let copy = station.clone();
            peers.set(i, station);
            proof {
                assert forall|a: int, b: int| 0 <= a < b < peers@.len() implies (#[trigger] peers@[a]).id@ != (#[trigger] peers@[b]).id@ by {
                    if a != i && b != i {
                        assert(peers@[a] == before[a] && peers@[b] == before[b]);
                    } else if a == i {
                        assert(peers@[b] == before[b]);
                        assert(before[i as int].id@ == copy.id@);
                    } else {
                        assert(peers@[a] == before[a]);
                        assert(before[i as int].id@ == copy.id@);
                    }
                }
            }
            Some(FleetEvent::PeerUpdated(copy))
        },
        None => {
            let ghost before = peers@;
            let copy = station.clone();
            peers.push(station);
            proof {
                assert forall|a: int, b: int| 0 <= a < b < peers@.len() implies (#[trigger] peers@[a]).id@ != (#[trigger] peers@[b]).id@ by {
                    if b == before.len() {
                        assert(peers@[a] == before[a]);
                        assert(!(0 <= a < before.len() && before[a].id@ == copy.id@));
                    } else {
                        assert(peers@[a] == before[a] && peers@[b] == before[b]);
                    }
                }
            }
            Some(FleetEvent::PeerDiscovered(copy))
        },
    }
}

/// Forget a peer whose advertisement was withdrawn; says whether it was
/// known.
pub fn peer_removed(peers: &mut Vec<StationInfo>, id: &StationId) -> (r: Option<FleetEvent>)
    requires
        ids_unique(old(peers)@),
    ensures
        ids_unique(final(peers)@),
        match peer_index(old(peers)@, id@) {
            Some(i) => r == Some(FleetEvent::PeerLost(*id)) && final(peers)@ == old(peers)@.remove(i),
            None => r is None && final(peers)@ == old(peers)@,
        },
{
    proof {
        lemma_peer_index(peers@, id@);
    }
    match find_peer(peers, id) {
        Some(i) => {
            let ghost before = peers@;
            peers.remove(i);
            proof {
                assert forall|a: int, b: int| 0 <= a < b < peers@.len() implies (#[trigger] peers@[a]).id@ != (#[trigger] peers@[b]).id@ by {
                    let a0 = if a < i { a } else { a + 1 };
                    let b0 = if b < i { b } else { b + 1 };
                    assert(peers@[a] == before[a0] && peers@[b] == before[b0]);
                }
            }
            Some(FleetEvent::PeerLost(id.clone()))
        },
        None => None,
    }
}

/// After a change to the peer table: the lead over the peers and this
/// station, announced only when it differs from the last one announced.
pub fn lead_after_change(peers: &Vec<StationInfo>, self_info: &StationInfo, last: &Option<StationId>) -> (r: (Option<StationId>, Option<FleetEvent>))
    ensures
        exists|i: int| is_lead_index(peers@.push(*self_info), i) && r.0 == Some(peers@.push(*self_info)[i].id),
        r.1 == if lead_changed_spec(*last, r.0) { Some(FleetEvent::LeadChanged(r.0)) } else { None::<FleetEvent> },
{
    let mut all: Vec<StationInfo> = Vec::new();
    for k in 0..peers.len()
        invariant
            all@ == peers@.subrange(0, k as int),
    {
        all.push(peers[k].clone());
        assert(all@ == peers@.subrange(0, k + 1));
    }
    all.push(self_info.clone());
    assert(all@ == peers@.push(*self_info));
    let lead = current_lead(&all);
    if lead_changed(last, &lead) {
        let announced = match &lead {
            Some(l) => Some(l.clone()),
            None => None,
        };
        (lead, Some(FleetEvent::LeadChanged(announced)))
    } else {
        (lead, None)
    }
}

/// Earliest Unix second a station's clock can report.
pub const MIN_UNIX_SECONDS: i64 = -377_705_116_800;

/// Latest Unix second a station's clock can report.
pub const MAX_UNIX_SECONDS: i64 = 253_402_300_799;

/// Does the time library accept this Unix timestamp
/// (`time::OffsetDateTime::from_unix_timestamp`)? Its range is dates from
/// year -9999 to 9999.
#[verifier::external_body]
fn unix_seconds_valid(t: i64) -> (r: bool)
    ensures
        r == (MIN_UNIX_SECONDS <= t <= MAX_UNIX_SECONDS),
{
    time::OffsetDateTime::from_unix_timestamp(t).is_ok()
}

/// A peer as read from its advertisement: the id is required; the role
/// defaults to member, the version to `0.0.0`, the port to the service's,
/// and the start time and job count to zero when absent or unreadable. A
/// start time the clock cannot represent drops the peer.
pub fn station_from_advert(
    id: Option<&str>,
    role: Option<&str>,
    version: Option<&str>,
    port: Option<&str>,
    started: Option<&str>,
    active: Option<&str>,
    service_port: u16,
    hostname: &str,
    seen_at: i64,
) -> (r: Option<StationInfo>)
    ensures
        ({
            let st = read_or(opt_text(started), true, i64::MIN as int, i64::MAX as int, 0);
            match id {
                None => r is None,
                Some(i) => if !(MIN_UNIX_SECONDS <= st <= MAX_UNIX_SECONDS) {
                    r is None
                } else {
                    r matches Some(info) && info.id@ == i@
                        && info.role == match role {
                            Some(t) => role_of_text(t@),
                            None => StationRole::Member,
                        }
                        && info.version@ == match version {
                            Some(v) => v@,
                            None => "0.0.0"@,
                        }
                        && info.api_port == read_or(opt_text(port), false, 0, u16::MAX as int, service_port as int)
                        && info.started_at == st
                        && info.active_jobs == read_or(opt_text(active), false, 0, u32::MAX as int, 0)
                        && info.hostname@ == strip_trailing(hostname@, '.')
                        && info.last_seen == Some(seen_at)
                },
            }
        }),
{
    let id = match id {
        Some(i) => StationId(String::from_str(i)),
        None => {
            return None;
        },
    };
    let role = match role {
        Some(t) => role_from_str(t),
        None => StationRole::Member,
    };
    let version = match version {
        Some(v) => String::from_str(v),
        None => String::from_str("0.0.0"),
    };
    let api_port: u16 = match port {
        Some(t) => match parse_in_range(t, false, 0, 65535) {
            Some(v) => v as u16,
            None => service_port,
        },
        None => service_port,
    };
    let started_at: i64 = match started {
        Some(t) => match parse_in_range(t, true, -0x8000_0000_0000_0000, 0x7fff_ffff_ffff_ffff) {
            Some(v) => v as i64,
            None => 0,
        },
        None => 0,
    };
    let active_jobs: u32 = match active {
        Some(t) => match parse_in_range(t, false, 0, 0xffff_ffff) {
            Some(v) => v as u32,
            None => 0,
        },
        None => 0,
    };
    if !unix_seconds_valid(started_at) {
        return None;
    }
    Some(StationInfo {
        id,
        hostname: strip_trailing_text(hostname, '.'),
        role,
        version,
        api_port,
        started_at,
        active_jobs,
        last_seen: Some(seen_at),
    })
}

/// The election depends only on who is known, never on the order they were
/// discovered in: whichever lead index is picked names the same station.
pub proof fn law_every_station_elects_the_same_lead(ss: Seq<StationInfo>, i: int, k: int)
    requires
        is_lead_index(ss, i),
        is_lead_index(ss, k),
    ensures
        ss[i].id@ == ss[k].id@,
        ss[i].started_at == ss[k].started_at,
{
    lemma_lead_unique(ss, i, k);
    let a = ss[i];
    let b = ss[k];
    assert(!ahead(a, b) && !ahead(b, a));
}

/// The lead started no later than any known station.
pub proof fn law_lead_started_first(ss: Seq<StationInfo>, i: int, j: int)
    requires
        is_lead_index(ss, i),
        0 <= j < ss.len(),
    ensures
        ss[i].started_at <= ss[j].started_at,
{
    assert(!ahead(ss[j], ss[i]));
}

} // verus!
