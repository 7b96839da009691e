use vstd::prelude::*;

verus! {

/// An asynchronous platform notification on its way to the control loop.
/// Produced by the download callbacks, consumed exactly once by the loop;
/// the relay does not correlate a completion with its start.
#[derive(Debug, Clone, PartialEq, Eq)]
pub enum RelayEvent {
    DownloadStarted { uri: String, destination: String },
    DownloadCompleted { path: Option<String>, success: bool },
}

/// The ordered queue between the background callbacks and the control loop.
/// Sends append at the back, the consumer takes from the front, so events
/// from one producer are observed in the order they were sent.
pub struct Relay {
    events: Vec<RelayEvent>,
}

impl View for Relay {
    type V = Seq<RelayEvent>;

    closed spec fn view(&self) -> Seq<RelayEvent> {
        self.events@
    }
}

impl Relay {
    pub fn new() -> (r: Relay)
        ensures
            r@ == Seq::<RelayEvent>::empty(),
    {
        Relay { events: Vec::new() }
    }

    /// Producer side: append one notification at the back.
    pub fn send(&mut self, e: RelayEvent)
        ensures
            final(self)@ == old(self)@.push(e),
    {
        self.events.push(e);
    }

    /// Consumer side: take the oldest queued notification, if any; the rest
    /// keep their order.
    pub fn recv(&mut self) -> (r: Option<RelayEvent>)
        ensures
            old(self)@.len() == 0 ==> r is None && final(self)@ == old(self)@,
            old(self)@.len() > 0 ==> r == Some(old(self)@[0]) && final(self)@ == old(self)@.skip(1),
    {
        if self.events.len() == 0 {
            None
        } else {
            let e = self.events.remove(0);
            proof {
                assert(self.events@ =~= old(self).events@.skip(1));
            }
            Some(e)
        }
    }

    pub fn len(&self) -> (n: usize)
        ensures
            n == self@.len(),
    {
        self.events.len()
    }
}

/// Relay ordering: two events sent in order onto any queue sit behind the
/// existing entries with the first strictly ahead of the second. Since `recv`
/// always returns the front and keeps the rest in order, the consumer
/// observes them in the order they were sent.
pub proof fn lemma_relay_fifo(q: Seq<RelayEvent>, a: RelayEvent, b: RelayEvent)
    ensures
        q.push(a).push(b).len() == q.len() + 2,
        q.push(a).push(b)[q.len() as int] == a,
        q.push(a).push(b)[q.len() as int + 1] == b,
        forall|i: int| 0 <= i < q.len() ==> q.push(a).push(b)[i] == q[i],
{
}

/// The download-start callback's work: resolve the destination by joining the
/// platform's downloads directory with the suggested file name, notify the
/// control loop, and hand the resolved path back to the caller. When the
/// downloads directory cannot be resolved, that one request fails: nothing is
/// sent and there is no path.
pub fn download_started(relay: &mut Relay, uri: String, suggested: &str) -> (r: Option<String>)
    ensures
        r is None ==> final(relay)@ == old(relay)@,
        r matches Some(path) ==> final(relay)@ == old(relay)@.push(
            RelayEvent::DownloadStarted { uri, destination: path },
        ) && path@.len() > suggested@.len() && path@.subrange(
            path@.len() - suggested@.len(),
            path@.len() as int,
        ) == suggested@ && path@[path@.len() - suggested@.len() - 1] == '/',
{
    match crate::external::downloads_dir() {
        None => None,
        Some(dir) => {
            let path = crate::paths::join_path(dir.as_str(), suggested);
            let destination = path.clone();
            relay.send(RelayEvent::DownloadStarted { uri, destination });
            proof {
                reveal_strlit("/");
                assert(path@.subrange(path@.len() - suggested@.len(), path@.len() as int)
                    =~= suggested@);
                assert(path@[path@.len() - suggested@.len() - 1] == "/"@[0]);
            }
            Some(path)
        },
    }
}

/// The download-complete callback's work: notify the control loop, keeping
/// whatever the platform said about the outcome.
pub fn download_completed(relay: &mut Relay, path: Option<String>, success: bool)
    ensures
        final(relay)@ == old(relay)@.push(RelayEvent::DownloadCompleted { path, success }),
{
    relay.send(RelayEvent::DownloadCompleted { path, success });
}

} // verus!
