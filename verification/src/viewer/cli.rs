//! The viewer's command line: options, and which server to connect to.
use crate::text::{
    decimal, digits_of, law_decimal_reads_back, number, parse_u64, push_decimal, same_text, text_of, texts, writes_u64,
};
use vstd::prelude::*;
use vstd::string::{StrSliceExecFns, StringExecFns, StringSliceAdditionalSpecFns};

verus! {

/// Whether `p` stands in `s` at `i`.
pub open spec fn stands_at(s: Seq<char>, p: Seq<char>, i: int) -> bool {
    0 <= i && i + p.len() <= s.len() && s.subrange(i, i + p.len()) == p
}

/// Whether `i` is the first place in `s` where `p` stands.
pub open spec fn first_at(s: Seq<char>, p: Seq<char>, i: int) -> bool {
    stands_at(s, p, i) && forall|j: int| 0 <= j < i ==> !#[trigger] stands_at(s, p, j)
}

/// The first place in `s` where `p` stands.
pub open spec fn find(s: Seq<char>, p: Seq<char>) -> Option<int> {
    if exists|i: int| #[trigger] first_at(s, p, i) {
        Some(choose|i: int| #[trigger] first_at(s, p, i))
    } else {
        None
    }
}

proof fn lemma_find(s: Seq<char>, p: Seq<char>, i: int)
    requires
        first_at(s, p, i),
    ensures
        find(s, p) == Some(i),
{
    let j = choose|j: int| #[trigger] first_at(s, p, j);
    if j < i {
        assert(!stands_at(s, p, j));
    } else if i < j {
        assert(!stands_at(s, p, i));
    }
}

proof fn lemma_found(s: Seq<char>, p: Seq<char>)
    ensures
        find(s, p) matches Some(i) ==> first_at(s, p, i),
{
}

proof fn lemma_absent(s: Seq<char>, p: Seq<char>)
    requires
        forall|i: int| !#[trigger] stands_at(s, p, i),
    ensures
        find(s, p) is None,
{
}

/// The first place in `s` where `p` stands.
pub fn find_text(s: &str, p: &str) -> (r: Option<usize>)
    ensures
        r is Some <==> find(s@, p@) is Some,
        r is Some ==> find(s@, p@) == Some(r->0 as int) && first_at(s@, p@, r->0 as int),
{
    let n: usize = s.unicode_len();
    let m: usize = p.unicode_len();
    if m > n {
        proof {
            lemma_absent(s@, p@);
        }
        return None;
    }
    let mut i: usize = 0;
    while i <= n - m
        invariant
            n == s@.len(),
            m == p@.len(),
            m <= n,
            i <= n - m + 1,
            forall|j: int| 0 <= j < i ==> !#[trigger] stands_at(s@, p@, j),
        decreases n - m + 1 - i,
    {
        if same_text(s.substring_char(i, i + m), p) {
            proof {
                assert(first_at(s@, p@, i as int));
                lemma_find(s@, p@, i as int);
            }
            return Some(i);
        }
        if i == n - m {
            proof {
                assert forall|j: int| !#[trigger] stands_at(s@, p@, j) by {
                    if stands_at(s@, p@, j) {
                        assert(j <= i);
                    }
                }
                lemma_absent(s@, p@);
            }
            return None;
        }
        i = i + 1;
    }
    None
}

/// The first place in `s` from `from` on where one of these characters stands, or the end.
pub open spec fn next_at(s: Seq<char>, from: int, cs: Seq<char>) -> int
    decreases s.len() - from,
{
    if from >= s.len() {
        s.len() as int
    } else if cs.contains(s[from]) {
        from
    } else {
        next_at(s, from + 1, cs)
    }
}

/// The place just behind the last of these characters among the first `n` of `s`, or the start.
pub open spec fn behind_last(s: Seq<char>, n: int, cs: Seq<char>) -> int
    decreases n,
{
    if n <= 0 {
        0
    } else if cs.contains(s[n - 1]) {
        n
    } else {
        behind_last(s, n - 1, cs)
    }
}

proof fn lemma_next(s: Seq<char>, from: int, cs: Seq<char>)
    requires
        0 <= from <= s.len(),
    ensures
        from <= next_at(s, from, cs) <= s.len(),
        forall|i: int| from <= i < next_at(s, from, cs) ==> !cs.contains(#[trigger] s[i]),
        next_at(s, from, cs) < s.len() ==> cs.contains(s[next_at(s, from, cs)]),
    decreases s.len() - from,
{
    if from < s.len() && !cs.contains(s[from]) {
        lemma_next(s, from + 1, cs);
    }
}

proof fn lemma_is_next(s: Seq<char>, from: int, cs: Seq<char>, at: int)
    requires
        0 <= from <= at <= s.len(),
        forall|i: int| from <= i < at ==> !cs.contains(#[trigger] s[i]),
        at < s.len() ==> cs.contains(s[at]),
    ensures
        next_at(s, from, cs) == at,
    decreases at - from,
{
    if from < at {
        lemma_is_next(s, from + 1, cs, at);
    }
}

proof fn lemma_last(s: Seq<char>, n: int, cs: Seq<char>)
    requires
        0 <= n <= s.len(),
    ensures
        0 <= behind_last(s, n, cs) <= n,
        forall|i: int| behind_last(s, n, cs) <= i < n ==> !cs.contains(#[trigger] s[i]),
        behind_last(s, n, cs) > 0 ==> cs.contains(s[behind_last(s, n, cs) - 1]),
    decreases n,
{
    if n > 0 && !cs.contains(s[n - 1]) {
        lemma_last(s, n - 1, cs);
    }
}

proof fn lemma_is_last(s: Seq<char>, n: int, cs: Seq<char>, at: int)
    requires
        0 <= at <= n <= s.len(),
        forall|i: int| at <= i < n ==> !cs.contains(#[trigger] s[i]),
        at > 0 ==> cs.contains(s[at - 1]),
    ensures
        behind_last(s, n, cs) == at,
    decreases n,
{
    if at < n {
        lemma_is_last(s, n - 1, cs, at);
    }
}

/// Whether a character is one of these.
fn one_of(c: char, cs: &str) -> (r: bool)
    ensures
        r == cs@.contains(c),
{
    let n: usize = cs.unicode_len();
    let mut i: usize = 0;
    while i < n
        invariant
            n == cs@.len(),
            i <= n,
            forall|j: int| 0 <= j < i ==> cs@[j] != c,
        decreases n - i,
    {
        if cs.get_char(i) == c {
            assert(cs@[i as int] == c);
            return true;
        }
        i = i + 1;
    }
    false
}

fn find_next(s: &str, from: usize, cs: &str) -> (r: usize)
    requires
        from <= s@.len(),
    ensures
        r == next_at(s@, from as int, cs@),
        from <= r <= s@.len(),
{
    let n: usize = s.unicode_len();
    let mut i: usize = from;
    while i < n && !one_of(s.get_char(i), cs)
        invariant
            n == s@.len(),
            from <= i <= n,
            next_at(s@, from as int, cs@) == next_at(s@, i as int, cs@),
        decreases n - i,
    {
        i = i + 1;
    }
    i
}

fn find_behind_last(s: &str, cs: &str) -> (r: usize)
    ensures
        r == behind_last(s@, s@.len() as int, cs@),
        r <= s@.len(),
{
    let n: usize = s.unicode_len();
    let mut i: usize = n;
    while i > 0 && !one_of(s.get_char(i - 1), cs)
        invariant
            n == s@.len(),
            i <= n,
            behind_last(s@, n as int, cs@) == behind_last(s@, i as int, cs@),
        decreases i,
    {
        i = i - 1;
    }
    i
}

/// What a URL has beside a port: all up to the host, the host with what may name a user before
/// it, and the path with what may follow it.
#[verifier::ext_equal]
pub struct UrlParts {
    pub scheme: Seq<char>,
    pub host: Seq<char>,
    pub path: Seq<char>,
}

/// What stands behind the scheme.
pub open spec fn behind_scheme(url: Seq<char>) -> Seq<char> {
    match find(url, "://"@) {
        Some(i) => url.skip(i + 3),
        None => url,
    }
}

/// How much of what stands behind the scheme names the server: all before the path.
pub open spec fn server_len(rest: Seq<char>) -> int {
    next_at(rest, 0, "/?#"@)
}

/// Where the port starts in what names the server: at the first colon that is neither within the
/// brackets of an address nor in the name of a user.
pub open spec fn port_at(server: Seq<char>) -> int {
    next_at(server, behind_last(server, server.len() as int, "@]"@), ":"@)
}

/// The parts of a URL. Without a scheme it is a WebSocket's.
pub open spec fn url_parts(url: Seq<char>) -> UrlParts {
    let rest = behind_scheme(url);
    let server = rest.take(server_len(rest));
    UrlParts {
        scheme: match find(url, "://"@) {
            Some(i) => url.take(i + 3),
            None => "ws://"@,
        },
        host: server.take(port_at(server)),
        path: rest.skip(server_len(rest)),
    }
}

/// A URL with its port set.
pub open spec fn with_port(url: Seq<char>, port: u16) -> Seq<char> {
    let parts = url_parts(url);
    parts.scheme + parts.host + ":"@ + decimal(port as nat) + parts.path
}

/// A URL with its port replaced, or added where it has none; scheme, host and path stay, the
/// host also where it is an address in brackets.
pub fn set_ws_port(url: &str, port: u16) -> (r: String)
    ensures
        r@ == with_port(url@, port),
{
    proof {
        reveal_strlit("://");
    }
    let n: usize = url.unicode_len();
    let (scheme, rest) = match find_text(url, "://") {
        Some(i) => (url.substring_char(0, i + 3), url.substring_char(i + 3, n)),
        None => ("ws://", url),
    };
    assert(rest@ =~= behind_scheme(url@));
    assert(scheme@ =~= url_parts(url@).scheme);
    let end: usize = find_next(rest, 0, "/?#");
    let server = rest.substring_char(0, end);
    let path = rest.substring_char(end, rest.unicode_len());
    assert(server@ =~= rest@.take(end as int));
    assert(path@ =~= rest@.skip(end as int));
    let at: usize = find_next(server, find_behind_last(server, "@]"), ":");
    let host = server.substring_char(0, at);
    assert(host@ =~= server@.take(at as int));
    let mut out = scheme.to_owned();
    out.append(host);
    out.append(":");
    push_decimal(&mut out, port as u64);
    out.append(path);
    out
}

proof fn lemma_decimal_chars(n: nat)
    ensures
        forall|i: int| 0 <= i < decimal(n).len() ==> '0' <= #[trigger] decimal(n)[i] && decimal(
            n,
        )[i] <= '9',
    decreases n,
{
    if n >= 10 {
        lemma_decimal_chars(n / 10);
        let front = decimal(n / 10);
        assert(decimal(n) == front.push(crate::text::digit(n % 10)));
        assert forall|i: int| 0 <= i < decimal(n).len() implies '0' <= #[trigger] decimal(n)[i]
            && decimal(n)[i] <= '9' by {
            if i < front.len() {
                assert(decimal(n)[i] == front[i]);
            }
        }
    }
}

/// Setting a port keeps scheme, host and path.
pub proof fn law_port_keeps_the_rest(url: Seq<char>, port: u16)
    ensures
        url_parts(with_port(url, port)) == url_parts(url),
{
    reveal_strlit("://");
    reveal_strlit("ws://");
    reveal_strlit("/?#");
    reveal_strlit("@]");
    reveal_strlit(":");
    let ends = "/?#"@;
    let guards = "@]"@;
    let colon = ":"@;
    assert(forall|c: char| #[trigger] ends.contains(c) ==> c == '/' || c == '?' || c == '#');
    assert(forall|c: char| #[trigger] guards.contains(c) ==> c == '@' || c == ']');
    assert(forall|c: char| #[trigger] colon.contains(c) ==> c == ':');
    assert(colon[0] == ':');
    let parts = url_parts(url);
    let rest = behind_scheme(url);
    let server = rest.take(server_len(rest));
    lemma_next(rest, 0, ends);
    lemma_last(server, server.len() as int, guards);
    let guard = behind_last(server, server.len() as int, guards);
    lemma_next(server, guard, colon);
    lemma_decimal_chars(port as nat);
    let tail = colon + decimal(port as nat);
    let set = with_port(url, port);
    let new_rest = parts.host + tail + parts.path;
    assert(set =~= parts.scheme + new_rest);
    // The scheme ends where it did.
    let at = parts.scheme.len() - 3;
    lemma_found(url, "://"@);
    assert(set.subrange(at, at + 3) =~= "://"@) by {
        if find(url, "://"@) is Some {
            let i = find(url, "://"@)->0;
            assert(at == i);
            assert(set.subrange(at, at + 3) =~= url.subrange(i, i + 3));
        }
    }
    assert forall|j: int| 0 <= j < at implies !#[trigger] stands_at(set, "://"@, j) by {
        if find(url, "://"@) is Some {
            assert(!stands_at(url, "://"@, j));
            assert(set.subrange(j, j + 3) =~= url.subrange(j, j + 3));
        } else {
            assert(set.subrange(j, j + 3)[0] == "ws://"@[j]);
        }
    }
    assert(first_at(set, "://"@, at));
    lemma_find(set, "://"@, at);
    assert(set.take(at + 3) =~= parts.scheme);
    assert(behind_scheme(set) =~= new_rest);
    // The host and its port end where the path starts.
    let front = parts.host + tail;
    let h = parts.host.len() as int;
    assert forall|i: int| 0 <= i < front.len() implies !ends.contains(#[trigger] new_rest[i]) by {
        if i < h {
            assert(new_rest[i] == rest[i]);
        } else if i > h {
            assert(new_rest[i] == decimal(port as nat)[i - h - 1]);
        }
    }
    assert(front.len() < new_rest.len() ==> new_rest[front.len() as int] == rest[server_len(rest)]);
    lemma_is_next(new_rest, 0, ends, front.len() as int);
    assert(new_rest.take(front.len() as int) =~= front);
    assert(new_rest.skip(front.len() as int) =~= parts.path);
    // The host ends where the port starts.
    assert forall|i: int| guard <= i < front.len() implies !guards.contains(#[trigger] front[i]) by {
        if i < h {
            assert(front[i] == server[i]);
        } else if i > h {
            assert(front[i] == decimal(port as nat)[i - h - 1]);
        }
    }
    assert(guard > 0 ==> front[guard - 1] == server[guard - 1]);
    lemma_is_last(front, front.len() as int, guards, guard);
    assert forall|i: int| guard <= i < h implies !colon.contains(#[trigger] front[i]) by {
        assert(front[i] == server[i]);
    }
    assert(front[h] == ':');
    lemma_is_next(front, guard, colon, h);
    assert(front.take(h) =~= parts.host);
    assert(url_parts(set) =~= parts);
}

/// The port that is set last is the port.
pub proof fn law_last_port_wins(url: Seq<char>, first: u16, last: u16)
    ensures
        with_port(with_port(url, first), last) == with_port(url, last),
{
    law_port_keeps_the_rest(url, first);
}

/// The server that is connected to where none is given.
pub open spec fn default_url() -> Seq<char> {
    "ws://127.0.0.1:8090"@
}

/// The server to connect to. A port alone is a port of this machine.
pub open spec fn target(url: Option<Seq<char>>, port: Option<u16>) -> Seq<char> {
    match (url, port) {
        (Some(u), Some(p)) => with_port(u, p),
        (Some(u), None) => u,
        (None, Some(p)) => "ws://127.0.0.1:"@ + decimal(p as nat),
        (None, None) => default_url(),
    }
}

/// The server to connect to.
pub fn resolve_url(url: Option<String>, port: Option<u16>) -> (r: String)
    ensures
        r@ == target(text_of(url), port),
{
    match (url, port) {
        (Some(u), Some(p)) => set_ws_port(u.as_str(), p),
        (Some(u), None) => u,
        (None, Some(p)) => {
            let mut s = "ws://127.0.0.1:".to_owned();
            push_decimal(&mut s, p as u64);
            s
        },
        (None, None) => "ws://127.0.0.1:8090".to_owned(),
    }
}

/// What the command line asked for.
pub struct Options {
    pub headless: bool,
    pub frames: usize,
    pub out: Option<String>,
    pub url: Option<String>,
    pub port: Option<u16>,
}

/// The same, its texts as sequences.
#[verifier::ext_equal]
pub struct OptionsView {
    pub headless: bool,
    pub frames: nat,
    pub out: Option<Seq<char>>,
    pub url: Option<Seq<char>>,
    pub port: Option<u16>,
}

impl View for Options {
    type V = OptionsView;

    open spec fn view(&self) -> OptionsView {
        OptionsView {
            headless: self.headless,
            frames: self.frames as nat,
            out: text_of(self.out),
            url: text_of(self.url),
            port: self.port,
        }
    }
}

/// Why a command line is refused. The usage is shown in each case.
pub enum Refusal {
    /// Help was asked for.
    Help,
    /// An option lacks its value, or the value is no number in range.
    BadValue,
    /// No such argument.
    Unknown(String),
}

/// The same, its text as a sequence.
pub enum RefusalView {
    Help,
    BadValue,
    Unknown(Seq<char>),
}

impl View for Refusal {
    type V = RefusalView;

    open spec fn view(&self) -> RefusalView {
        match self {
            Refusal::Help => RefusalView::Help,
            Refusal::BadValue => RefusalView::BadValue,
            Refusal::Unknown(s) => RefusalView::Unknown(s@),
        }
    }
}

/// The options before anything is read: windowed, and sixty frames where it is not.
pub open spec fn defaults() -> OptionsView {
    OptionsView { headless: false, frames: 60, out: None, url: None, port: None }
}

/// Whether a text starts with another.
pub open spec fn starts_with(s: Seq<char>, p: Seq<char>) -> bool {
    stands_at(s, p, 0)
}

/// Whether a text writes a number of at most `max`.
pub open spec fn writes_up_to(s: Seq<char>, max: int) -> bool {
    writes_u64(s) && number(digits_of(s)) <= max
}

/// Reads the arguments from the `i`-th on, with `o` read before.
pub open spec fn reads(args: Seq<Seq<char>>, i: int, o: OptionsView) -> Result<
    OptionsView,
    RefusalView,
>
    decreases args.len() - i,
{
    if i < 0 || i >= args.len() {
        Ok(o)
    } else {
        let a = args[i];
        let valued = i + 1 < args.len();
        if a == "--headless"@ {
            reads(args, i + 1, OptionsView { headless: true, ..o })
        } else if a == "--debug"@ {
            reads(args, i + 1, o)
        } else if a == "--frames"@ {
            if valued && writes_up_to(args[i + 1], usize::MAX as int) {
                let frames = number(digits_of(args[i + 1])) as nat;
                reads(args, i + 2, OptionsView { frames, ..o })
            } else {
                Err(RefusalView::BadValue)
            }
        } else if a == "--out"@ {
            if valued {
                reads(args, i + 2, OptionsView { out: Some(args[i + 1]), ..o })
            } else {
                Err(RefusalView::BadValue)
            }
        } else if a == "--url"@ {
            if valued {
                reads(args, i + 2, OptionsView { url: Some(args[i + 1]), ..o })
            } else {
                Err(RefusalView::BadValue)
            }
        } else if a == "--port"@ {
            if valued && writes_up_to(args[i + 1], 65535) {
                let port = Some(number(digits_of(args[i + 1])) as u16);
                reads(args, i + 2, OptionsView { port, ..o })
            } else {
                Err(RefusalView::BadValue)
            }
        } else if a == "-h"@ || a == "--help"@ {
            Err(RefusalView::Help)
        } else if starts_with(a, "ws://"@) || starts_with(a, "wss://"@) {
            reads(args, i + 1, OptionsView { url: Some(a), ..o })
        } else {
            Err(RefusalView::Unknown(a))
        }
    }
}

/// What is read of a command line.
pub open spec fn outcome(r: Result<Options, Refusal>) -> Result<OptionsView, RefusalView> {
    match r {
        Ok(o) => Ok(o@),
        Err(e) => Err(e@),
    }
}

fn has_prefix(s: &str, p: &str) -> (r: bool)
    ensures
        r == starts_with(s@, p@),
{
    let m: usize = p.unicode_len();
    m <= s.unicode_len() && same_text(s.substring_char(0, m), p)
}

fn number_up_to(s: &str, max: u64) -> (r: Option<u64>)
    ensures
        r is Some <==> writes_up_to(s@, max as int),
        r is Some ==> r->0 == number(digits_of(s@)),
{
    match parse_u64(s) {
        Some(n) => if n <= max {
            Some(n)
        } else {
            None
        },
        None => None,
    }
}

/// Reads the viewer's arguments.
pub fn parse_args(args: &Vec<String>) -> (r: Result<Options, Refusal>)
    ensures
        outcome(r) == reads(texts(args@), 0, defaults()),
{
    let mut o = Options { headless: false, frames: 60, out: None, url: None, port: None };
    let mut i: usize = 0;
    let ghost all = texts(args@);
    while i < args.len()
        invariant
            i <= args@.len(),
            all == texts(args@),
            reads(all, 0, defaults()) == reads(all, i as int, o@),
        decreases args.len() - i,
    {
        let a = args[i].as_str();
        let valued: bool = i + 1 < args.len();
        assert(a@ == all[i as int]);
        if same_text(a, "--headless") {
            o.headless = true;
            i = i + 1;
        } else if same_text(a, "--debug") {
            i = i + 1;
        } else if same_text(a, "--frames") {
            if !valued {
                return Err(Refusal::BadValue);
            }
            match number_up_to(args[i + 1].as_str(), usize::MAX as u64) {
                Some(n) => {
                    o.frames = n as usize;
                },
                None => {
                    return Err(Refusal::BadValue);
                },
            }
            i = i + 2;
        } else if same_text(a, "--out") {
            if !valued {
                return Err(Refusal::BadValue);
            }
            o.out = Some(args[i + 1].clone());
            i = i + 2;
        } else if same_text(a, "--url") {
            if !valued {
                return Err(Refusal::BadValue);
            }
            o.url = Some(args[i + 1].clone());
            i = i + 2;
        } else if same_text(a, "--port") {
            if !valued {
                return Err(Refusal::BadValue);
            }
            match number_up_to(args[i + 1].as_str(), 65535) {
                Some(n) => {
                    o.port = Some(n as u16);
                },
                None => {
                    return Err(Refusal::BadValue);
                },
            }
            i = i + 2;
        } else if same_text(a, "-h") || same_text(a, "--help") {
            return Err(Refusal::Help);
        } else if has_prefix(a, "ws://") || has_prefix(a, "wss://") {
            o.url = Some(a.to_owned());
            i = i + 1;
        } else {
            return Err(Refusal::Unknown(a.to_owned()));
        }
    }
    Ok(o)
}

/// Whether the arguments ask for a debug log, wherever they do.
pub fn wants_debug(args: &Vec<String>) -> (r: bool)
    ensures
        r == texts(args@).contains("--debug"@),
{
    let ghost all = texts(args@);
    let mut i: usize = 0;
    while i < args.len()
        invariant
            i <= args@.len(),
            all == texts(args@),
            forall|j: int| 0 <= j < i ==> all[j] != "--debug"@,
        decreases args.len() - i,
    {
        assert(all[i as int] == args@[i as int]@);
        if same_text(args[i].as_str(), "--debug") {
            return true;
        }
        i = i + 1;
    }
    false
}

/// A port and a URL go together whatever their order.
pub proof fn law_order_of_port_and_url(url: Seq<char>, port: Seq<char>)
    requires
        writes_up_to(port, 65535),
    ensures
        reads(seq!["--url"@, url, "--port"@, port], 0, defaults()) == reads(
            seq!["--port"@, port, "--url"@, url],
            0,
            defaults(),
        ),
        reads(seq!["--url"@, url, "--port"@, port], 0, defaults()) is Ok,
        ({
            let o = reads(seq!["--url"@, url, "--port"@, port], 0, defaults())->Ok_0;
            target(o.url, o.port) == with_port(url, number(digits_of(port)) as u16)
        }),
{
    reveal_strlit("--url");
    reveal_strlit("--port");
    reveal_strlit("--out");
    reveal_strlit("--frames");
    reveal_strlit("--debug");
    reveal_strlit("--headless");
    assert("--url"@[2] == 'u' && "--port"@[2] == 'p' && "--out"@[2] == 'o');
    assert("--frames"@[2] == 'f' && "--debug"@[2] == 'd' && "--headless"@[2] == 'h');
    reveal_with_fuel(reads, 4);
}

/// Whether none of these characters stands in a text.
pub open spec fn free_of(s: Seq<char>, cs: Seq<char>) -> bool {
    forall|i: int| 0 <= i < s.len() ==> !cs.contains(#[trigger] s[i])
}

/// Setting the port of a URL puts it behind the host, in place of the port that stood there, and
/// keeps what is before and behind it. The host is a name, or an address that ends with a bracket.
pub proof fn law_port_is_set(
    s: Seq<char>,
    host: Seq<char>,
    old_port: Seq<char>,
    path: Seq<char>,
    port: u16,
)
    requires
        free_of(s, seq![':']),
        free_of(host, seq!['/', '?', '#']),
        free_of(host, seq!['@', ']', ':']) || (host.len() > 0 && host.last() == ']'),
        free_of(old_port, seq!['/', '?', '#', '@', ']']),
        old_port.len() > 0 ==> old_port[0] == ':',
        path.len() > 0 ==> seq!['/', '?', '#'].contains(path[0]),
    ensures
        with_port(s + seq![':', '/', '/'] + host + old_port + path, port) == s + seq![':', '/', '/']
            + host + seq![':'] + decimal(port as nat) + path,
{
    reveal_strlit("://");
    reveal_strlit("/?#");
    reveal_strlit("@]");
    reveal_strlit(":");
    let sep = seq![':', '/', '/'];
    let url = s + sep + host + old_port + path;
    let n = s.len() as int;
    assert("://"@ =~= sep);
    assert("/?#"@ =~= seq!['/', '?', '#']);
    assert("@]"@ =~= seq!['@', ']']);
    assert(":"@ =~= seq![':']);
    assert(stands_at(url, sep, n)) by {
        assert(url.subrange(n, n + 3) =~= sep);
    }
    assert forall|j: int| 0 <= j < n implies !#[trigger] stands_at(url, sep, j) by {
        if stands_at(url, sep, j) {
            assert(url.subrange(j, j + 3)[0] == url[j]);
            assert(url[j] == s[j]);
            assert(sep[0] == ':');
            assert(seq![':'][0] == ':');
            assert(seq![':'].contains(s[j]));
        }
    }
    lemma_find(url, sep, n);
    let rest = host + old_port + path;
    assert(url.skip(n + 3) =~= rest);
    let server = host + old_port;
    let m = server.len() as int;
    let ends = seq!['/', '?', '#'];
    assert forall|i: int| 0 <= i < m implies !ends.contains(#[trigger] rest[i]) by {
        if i < host.len() {
            assert(rest[i] == host[i]);
        } else {
            let c = old_port[i - host.len()];
            assert(rest[i] == c);
            if ends.contains(c) {
                let k = ends.index_of(c);
                assert(seq!['/', '?', '#', '@', ']'][k] == c);
            }
        }
    }
    assert(m < rest.len() ==> rest[m] == path[0]);
    lemma_is_next(rest, 0, ends, m);
    assert(rest.take(m) =~= server);
    assert(rest.skip(m) =~= path);
    let guards = seq!['@', ']'];
    let h = host.len() as int;
    let g = if free_of(host, seq!['@', ']', ':']) {
        0int
    } else {
        h
    };
    assert forall|i: int| g <= i < m implies !guards.contains(#[trigger] server[i]) by {
        let c = server[i];
        if guards.contains(c) {
            let k = guards.index_of(c);
            if i < h {
                assert(c == host[i]);
                assert(seq!['@', ']', ':'][k] == c);
            } else {
                assert(c == old_port[i - h]);
                assert(seq!['/', '?', '#', '@', ']'][k + 3] == c);
            }
        }
    }
    if g > 0 {
        assert(server[g - 1] == ']');
        assert(guards[1] == ']');
    }
    lemma_is_last(server, m, guards, g);
    let colon = seq![':'];
    assert forall|i: int| g <= i < h implies !colon.contains(#[trigger] server[i]) by {
        let c = server[i];
        assert(c == host[i]);
        if colon.contains(c) {
            assert(seq!['@', ']', ':'][2] == c);
        }
    }
    if h < m {
        assert(server[h] == old_port[0]);
        assert(colon[0] == ':');
    }
    lemma_is_next(server, g, colon, h);
    assert(server.take(h) =~= host);
    assert(url.take(n + 3) =~= s + sep);
    assert(with_port(url, port) =~= s + sep + host + colon + decimal(port as nat) + path);
}

/// A server that is given is connected to as it is, or at the port that is given with it. A port
/// alone is a port of the server that is connected to otherwise.
pub proof fn law_target(url: Option<String>, port: Option<u16>, r: String)
    requires
        call_ensures(resolve_url, (url, port), r),
    ensures
        url is Some && port is None ==> r@ == url->0@,
        url is Some && port is Some ==> r@ == with_port(url->0@, port->0),
        url is None && port is None ==> r@ == "ws://127.0.0.1:8090"@,
        url is None && port is Some ==> r@ == with_port("ws://127.0.0.1:8090"@, port->0),
{
    if url is None && port is Some {
        reveal_strlit("ws://127.0.0.1:8090");
        reveal_strlit("ws://127.0.0.1:");
        let p = port->0;
        let host = seq!['1', '2', '7', '.', '0', '.', '0', '.', '1'];
        let old_port = seq![':', '8', '0', '9', '0'];
        let e = Seq::<char>::empty();
        assert("ws://127.0.0.1:8090"@ =~= seq!['w', 's'] + seq![':', '/', '/'] + host + old_port + e);
        law_port_is_set(seq!['w', 's'], host, old_port, e, p);
        assert("ws://127.0.0.1:"@ =~= seq!['w', 's'] + seq![':', '/', '/'] + host + seq![':']);
        assert(r@ =~= seq!['w', 's'] + seq![':', '/', '/'] + host + seq![':'] + decimal(p as nat)
            + e);
    }
}

proof fn lemma_reads_on(
    a: Seq<Seq<char>>,
    b: Seq<Seq<char>>,
    i: int,
    o: OptionsView,
    p: OptionsView,
)
    requires
        0 <= i <= a.len(),
        reads(a, i, o) == Ok::<OptionsView, RefusalView>(p),
    ensures
        reads(a + b, i, o) == reads(a + b, a.len() as int, p),
    decreases a.len() - i,
{
    if i < a.len() {
        let x = a[i];
        assert((a + b)[i] == x);
        if i + 1 < a.len() {
            assert((a + b)[i + 1] == a[i + 1]);
        }
        let valued = i + 1 < a.len();
        if x == "--headless"@ {
            lemma_reads_on(a, b, i + 1, OptionsView { headless: true, ..o }, p);
        } else if x == "--debug"@ {
            lemma_reads_on(a, b, i + 1, o, p);
        } else if x == "--frames"@ {
            let frames = number(digits_of(a[i + 1])) as nat;
            lemma_reads_on(a, b, i + 2, OptionsView { frames, ..o }, p);
        } else if x == "--out"@ {
            lemma_reads_on(a, b, i + 2, OptionsView { out: Some(a[i + 1]), ..o }, p);
        } else if x == "--url"@ {
            lemma_reads_on(a, b, i + 2, OptionsView { url: Some(a[i + 1]), ..o }, p);
        } else if x == "--port"@ {
            let port = Some(number(digits_of(a[i + 1])) as u16);
            lemma_reads_on(a, b, i + 2, OptionsView { port, ..o }, p);
        } else {
            lemma_reads_on(a, b, i + 1, OptionsView { url: Some(x), ..o }, p);
        }
    }
}

proof fn lemma_words()
    ensures
        "--headless"@[2] == 'h',
        "--headless"@[3] == 'e',
        "--headless"@[4] == 'a',
        "--help"@[4] == 'l',
        "--debug"@[2] == 'd',
        "--frames"@[2] == 'f',
        "--out"@[2] == 'o',
        "--url"@[2] == 'u',
        "--port"@[2] == 'p',
        "--help"@[2] == 'h',
        "-h"@.len() == 2,
        "--headless"@.len() > 4,
        "--help"@.len() == 6,
        "--debug"@.len() > 4,
        "--frames"@.len() > 4,
        "--out"@.len() > 4,
        "--url"@.len() > 4,
        "--port"@.len() > 4,
        "--help"@ != "--headless"@,
{
    reveal_strlit("--url");
    reveal_strlit("--port");
    reveal_strlit("--out");
    reveal_strlit("--frames");
    reveal_strlit("--debug");
    reveal_strlit("--headless");
    reveal_strlit("--help");
    reveal_strlit("-h");
    assert("--help"@[4] != "--headless"@[4]);
}

/// Options add to each other from left to right: what is asked for last is added to what was read
/// before, and stands.
pub proof fn law_later_options_stand(
    a: Seq<Seq<char>>,
    p: OptionsView,
    text: Seq<char>,
    n: nat,
)
    requires
        reads(a, 0, defaults()) == Ok::<OptionsView, RefusalView>(p),
    ensures
        reads(a + seq!["--headless"@], 0, defaults()) == Ok::<OptionsView, RefusalView>(
            OptionsView { headless: true, ..p },
        ),
        reads(a + seq!["--debug"@], 0, defaults()) == Ok::<OptionsView, RefusalView>(p),
        n <= u64::MAX && n <= usize::MAX ==> reads(
            a + seq!["--frames"@, decimal(n)],
            0,
            defaults(),
        ) == Ok::<OptionsView, RefusalView>(OptionsView { frames: n, ..p }),
        reads(a + seq!["--out"@, text], 0, defaults()) == Ok::<OptionsView, RefusalView>(
            OptionsView { out: Some(text), ..p },
        ),
        reads(a + seq!["--url"@, text], 0, defaults()) == Ok::<OptionsView, RefusalView>(
            OptionsView { url: Some(text), ..p },
        ),
        n <= 65535 ==> reads(a + seq!["--port"@, decimal(n)], 0, defaults()) == Ok::<
            OptionsView,
            RefusalView,
        >(OptionsView { port: Some(n as u16), ..p }),
        n > 65535 ==> reads(a + seq!["--port"@, decimal(n)], 0, defaults()) == Err::<
            OptionsView,
            RefusalView,
        >(RefusalView::BadValue),
{
    lemma_words();
    law_decimal_reads_back(n);
    reveal_with_fuel(reads, 2);
    let b1 = seq!["--headless"@];
    let b2 = seq!["--debug"@];
    let b3 = seq!["--frames"@, decimal(n)];
    let b4 = seq!["--out"@, text];
    let b5 = seq!["--url"@, text];
    let b6 = seq!["--port"@, decimal(n)];
    let k = a.len() as int;
    lemma_reads_on(a, b1, 0, defaults(), p);
    lemma_reads_on(a, b2, 0, defaults(), p);
    lemma_reads_on(a, b3, 0, defaults(), p);
    lemma_reads_on(a, b4, 0, defaults(), p);
    lemma_reads_on(a, b5, 0, defaults(), p);
    lemma_reads_on(a, b6, 0, defaults(), p);
    assert((a + b1)[k] == b1[0]);
    assert((a + b2)[k] == b2[0]);
    assert((a + b3)[k] == b3[0] && (a + b3)[k + 1] == b3[1]);
    assert((a + b4)[k] == b4[0] && (a + b4)[k + 1] == b4[1]);
    assert((a + b5)[k] == b5[0] && (a + b5)[k + 1] == b5[1]);
    assert((a + b6)[k] == b6[0] && (a + b6)[k + 1] == b6[1]);
}

/// A bare server address is taken as the server; an option without its value, help and anything
/// else end the reading, each with its own answer. Without arguments there is a window, no server,
/// no port and no file, and sixty frames where it has to count.
pub proof fn law_other_arguments(a: Seq<Seq<char>>, p: OptionsView, host: Seq<char>, x: Seq<char>)
    requires
        reads(a, 0, defaults()) == Ok::<OptionsView, RefusalView>(p),
        x.len() > 0 && x[0] != 'w' && x[0] != '-',
    ensures
        reads(a + seq!["ws://"@ + host], 0, defaults()) == Ok::<OptionsView, RefusalView>(
            OptionsView { url: Some("ws://"@ + host), ..p },
        ),
        reads(a + seq!["wss://"@ + host], 0, defaults()) == Ok::<OptionsView, RefusalView>(
            OptionsView { url: Some("wss://"@ + host), ..p },
        ),
        reads(a + seq!["--frames"@], 0, defaults()) == Err::<OptionsView, RefusalView>(
            RefusalView::BadValue,
        ),
        reads(a + seq!["--out"@], 0, defaults()) == Err::<OptionsView, RefusalView>(
            RefusalView::BadValue,
        ),
        reads(a + seq!["--url"@], 0, defaults()) == Err::<OptionsView, RefusalView>(
            RefusalView::BadValue,
        ),
        reads(a + seq!["--port"@], 0, defaults()) == Err::<OptionsView, RefusalView>(
            RefusalView::BadValue,
        ),
        reads(a + seq!["-h"@], 0, defaults()) == Err::<OptionsView, RefusalView>(
            RefusalView::Help,
        ),
        reads(a + seq!["--help"@], 0, defaults()) == Err::<OptionsView, RefusalView>(
            RefusalView::Help,
        ),
        reads(a + seq![x], 0, defaults()) == Err::<OptionsView, RefusalView>(
            RefusalView::Unknown(x),
        ),
        reads(Seq::empty(), 0, defaults()) == Ok::<OptionsView, RefusalView>(
            OptionsView { headless: false, frames: 60, out: None, url: None, port: None },
        ),
{
    lemma_words();
    reveal_strlit("ws://");
    reveal_strlit("wss://");
    reveal_strlit("-h");
    reveal_strlit("--url");
    reveal_strlit("--port");
    reveal_strlit("--out");
    reveal_strlit("--frames");
    reveal_strlit("--debug");
    reveal_strlit("--headless");
    reveal_strlit("--help");
    let k = a.len() as int;
    let u = "ws://"@ + host;
    let v = "wss://"@ + host;
    assert(u[0] == 'w' && v[0] == 'w');
    assert(u.subrange(0, 5) =~= "ws://"@);
    assert(v.subrange(0, 6) =~= "wss://"@);
    assert(stands_at(u, "ws://"@, 0));
    assert(stands_at(v, "wss://"@, 0));
    assert(!stands_at(x, "ws://"@, 0)) by {
        if stands_at(x, "ws://"@, 0) {
            assert(x.subrange(0, 5)[0] == x[0]);
        }
    }
    assert(!stands_at(x, "wss://"@, 0)) by {
        if stands_at(x, "wss://"@, 0) {
            assert(x.subrange(0, 6)[0] == x[0]);
        }
    }
    reveal_with_fuel(reads, 2);
    lemma_reads_on(a, seq![u], 0, defaults(), p);
    lemma_reads_on(a, seq![v], 0, defaults(), p);
    lemma_reads_on(a, seq![x], 0, defaults(), p);
    lemma_reads_on(a, seq!["--frames"@], 0, defaults(), p);
    lemma_reads_on(a, seq!["--out"@], 0, defaults(), p);
    lemma_reads_on(a, seq!["--url"@], 0, defaults(), p);
    lemma_reads_on(a, seq!["--port"@], 0, defaults(), p);
    lemma_reads_on(a, seq!["-h"@], 0, defaults(), p);
    lemma_reads_on(a, seq!["--help"@], 0, defaults(), p);
    assert((a + seq![u])[k] == u);
    assert((a + seq![v])[k] == v);
    assert((a + seq![x])[k] == x);
    assert((a + seq!["--frames"@])[k] == "--frames"@);
    assert((a + seq!["--out"@])[k] == "--out"@);
    assert((a + seq!["--url"@])[k] == "--url"@);
    assert((a + seq!["--port"@])[k] == "--port"@);
    assert((a + seq!["-h"@])[k] == "-h"@);
    assert((a + seq!["--help"@])[k] == "--help"@);
}

/// What the command line and the settings of a URL come to is what the laws of reading them say.
pub proof fn law_arguments_are_read(
    args: &Vec<String>,
    r: Result<Options, Refusal>,
    debug: bool,
    url: &str,
    port: u16,
    set: String,
)
    requires
        call_ensures(parse_args, (args,), r),
        call_ensures(wants_debug, (args,), debug),
        call_ensures(set_ws_port, (url, port), set),
    ensures
        outcome(r) == reads(texts(args@), 0, defaults()),
        args@.len() == 0 ==> r is Ok && !r->Ok_0.headless && r->Ok_0.frames == 60
            && r->Ok_0.url is None && r->Ok_0.port is None && r->Ok_0.out is None,
        debug <==> texts(args@).contains("--debug"@),
        set@ == with_port(url@, port),
{
}

} // verus!
