//! The replay server's command line.
use crate::text::{same_text, texts};
use vstd::prelude::*;

verus! {

/// Why the arguments are refused.
pub enum ServerRefusal {
    /// No such argument.
    Unknown(String),
    /// No socket was given.
    NoSocket,
}

/// The same, its text as a sequence.
pub enum ServerRefusalView {
    Unknown(Seq<char>),
    NoSocket,
}

/// Reads the arguments from the `i`-th on, with `socket` read before. The last socket counts; the
/// option as the last argument takes it back.
pub open spec fn reads_socket(args: Seq<Seq<char>>, i: int, socket: Option<Seq<char>>) -> Result<
    Seq<char>,
    ServerRefusalView,
>
    decreases args.len() - i,
{
    if i < 0 || i >= args.len() {
        match socket {
            Some(s) => Ok(s),
            None => Err(ServerRefusalView::NoSocket),
        }
    } else if args[i] == "--socket"@ || args[i] == "-s"@ {
        if i + 1 < args.len() {
            reads_socket(args, i + 2, Some(args[i + 1]))
        } else {
            Err(ServerRefusalView::NoSocket)
        }
    } else {
        Err(ServerRefusalView::Unknown(args[i]))
    }
}

/// What is read of the arguments.
pub open spec fn socket_outcome(r: Result<String, ServerRefusal>) -> Result<
    Seq<char>,
    ServerRefusalView,
> {
    match r {
        Ok(s) => Ok(s@),
        Err(ServerRefusal::NoSocket) => Err(ServerRefusalView::NoSocket),
        Err(ServerRefusal::Unknown(s)) => Err(ServerRefusalView::Unknown(s@)),
    }
}

/// Reads the path of the socket to serve on.
pub fn socket_argument(args: &Vec<String>) -> (r: Result<String, ServerRefusal>)
    ensures
        socket_outcome(r) == reads_socket(texts(args@), 0, None),
{
    let ghost all = texts(args@);
    let mut socket: Option<usize> = None;
    let mut i: usize = 0;
    while i < args.len()
        invariant
            i <= args@.len(),
            all == texts(args@),
            socket is Some ==> socket->0 < args@.len(),
            reads_socket(all, 0, None) == reads_socket(
                all,
                i as int,
                match socket {
                    Some(k) => Some(all[k as int]),
                    None => None,
                },
            ),
        decreases args.len() - i,
    {
        let a = args[i].as_str();
        assert(a@ == all[i as int]);
        if same_text(a, "--socket") || same_text(a, "-s") {
            if i + 1 < args.len() {
                socket = Some(i + 1);
                i = i + 2;
            } else {
                return Err(ServerRefusal::NoSocket);
            }
        } else {
            return Err(ServerRefusal::Unknown(args[i].clone()));
        }
    }
    match socket {
        Some(k) => Ok(args[k].clone()),
        None => Err(ServerRefusal::NoSocket),
    }
}

proof fn lemma_reads_socket_on(
    a: Seq<Seq<char>>,
    b: Seq<Seq<char>>,
    i: int,
    socket: Option<Seq<char>>,
    x: Seq<char>,
)
    requires
        0 <= i <= a.len(),
        reads_socket(a, i, socket) == Ok::<Seq<char>, ServerRefusalView>(x),
    ensures
        reads_socket(a + b, i, socket) == reads_socket(a + b, a.len() as int, Some(x)),
    decreases a.len() - i,
{
    if i < a.len() {
        assert((a + b)[i] == a[i]);
        assert((a + b)[i + 1] == a[i + 1]);
        lemma_reads_socket_on(a, b, i + 2, Some(a[i + 1]), x);
    }
}

/// The socket that is named last is served on, by either form of the option, whatever was named
/// before. Without a socket there is none, also where the option comes without one, and any other
/// argument is told of.
pub proof fn law_last_socket_counts(
    a: Seq<Seq<char>>,
    before: Seq<char>,
    path: Seq<char>,
    other: Seq<char>,
)
    requires
        reads_socket(a, 0, None) == Ok::<Seq<char>, ServerRefusalView>(before),
        other != "--socket"@,
        other != "-s"@,
    ensures
        reads_socket(a + seq!["--socket"@, path], 0, None) == Ok::<Seq<char>, ServerRefusalView>(
            path,
        ),
        reads_socket(a + seq!["-s"@, path], 0, None) == Ok::<Seq<char>, ServerRefusalView>(path),
        reads_socket(seq!["--socket"@, path], 0, None) == Ok::<Seq<char>, ServerRefusalView>(path),
        reads_socket(seq!["-s"@, path], 0, None) == Ok::<Seq<char>, ServerRefusalView>(path),
        reads_socket(a + seq!["-s"@], 0, None) == Err::<Seq<char>, ServerRefusalView>(
            ServerRefusalView::NoSocket,
        ),
        reads_socket(Seq::empty(), 0, None) == Err::<Seq<char>, ServerRefusalView>(
            ServerRefusalView::NoSocket,
        ),
        reads_socket(a + seq![other], 0, None) == Err::<Seq<char>, ServerRefusalView>(
            ServerRefusalView::Unknown(other),
        ),
{
    let k = a.len() as int;
    let b = seq!["--socket"@, path];
    let c = seq!["-s"@, path];
    let d = seq!["-s"@];
    let e = seq![other];
    reveal_with_fuel(reads_socket, 2);
    lemma_reads_socket_on(a, b, 0, None, before);
    lemma_reads_socket_on(a, c, 0, None, before);
    lemma_reads_socket_on(a, d, 0, None, before);
    lemma_reads_socket_on(a, e, 0, None, before);
    assert((a + b)[k] == b[0] && (a + b)[k + 1] == path);
    assert((a + c)[k] == c[0] && (a + c)[k + 1] == path);
    assert((a + d)[k] == d[0]);
    assert((a + e)[k] == other);
}

/// The socket is read of the arguments as given.
pub proof fn law_socket_is_read(args: &Vec<String>, r: Result<String, ServerRefusal>)
    requires
        call_ensures(socket_argument, (args,), r),
    ensures
        socket_outcome(r) == reads_socket(texts(args@), 0, None),
        args@.len() == 0 ==> r is Err,
{
}

} // verus!
