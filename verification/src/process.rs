use vstd::prelude::*;
use crate::config::GenerateError;
use crate::StreamPhase;

verus! {

/// The lossy UTF-8 reading of a byte sequence: invalid sequences stand as
/// replacement characters. Its value is fixed by the bytes alone.
pub uninterp spec fn lossy_decode(bytes: Seq<u8>) -> Seq<char>;

/// Relies on String::from_utf8_lossy: the result depends on the bytes
/// alone, and empty input gives the empty string.
#[verifier::external_body]
fn lossy_utf8(bytes: &Vec<u8>) -> (r: String)
    ensures
        r@ == lossy_decode(bytes@),
        bytes@.len() == 0 ==> r@.len() == 0,
{
    String::from_utf8_lossy(bytes.as_slice()).into_owned()
}

/// The argument list handed to the spawned command: the configured fixed
/// arguments `argv[1..]`, then the context as the final argument.
pub open spec fn spawned_args(argv: Seq<Seq<char>>, context: Seq<char>) -> Seq<Seq<char>> {
    argv.subrange(1, argv.len() as int).push(context)
}

/// The context string always stands as the final argument of the spawned
/// command, after every configured fixed argument, whatever the configured
/// argv and the context are.
pub proof fn lemma_context_is_final_argument(argv: Seq<Seq<char>>, context: Seq<char>)
    requires
        argv.len() >= 1,
    ensures
        spawned_args(argv, context).len() == argv.len(),
        spawned_args(argv, context).last() == context,
        forall|i: int| 1 <= i < argv.len() ==> spawned_args(argv, context)[i - 1] == argv[i],
{
}

/// The executable and argument list for spawning the selected command with
/// the context appended as the final argument.
pub fn spawn_args(argv: &Vec<String>, context: String) -> (r: (String, Vec<String>))
    requires
        argv@.len() >= 1,
    ensures
        r.0@ == argv.deep_view()[0],
        r.1.deep_view() == spawned_args(argv.deep_view(), context@),
{
    let executable = argv[0].clone();
    let mut args: Vec<String> = Vec::new();
    let mut i: usize = 1;
    while i < argv.len()
        invariant
            1 <= i <= argv@.len(),
            args@.len() == i - 1,
            forall|j: int| 0 <= j < i - 1 ==> args@[j]@ == argv@[j + 1]@,
        decreases argv@.len() - i,
    {
        args.push(argv[i].clone());
        i += 1;
    }
    args.push(context);
    proof {
        assert forall|j: int| 0 <= j < args@.len() implies args.deep_view()[j]
            == spawned_args(argv.deep_view(), args@[args@.len() - 1]@)[j] by {
            assert(args.deep_view()[j] == args@[j]@);
        }
        assert(args.deep_view() =~= spawned_args(argv.deep_view(), args@[args@.len() - 1]@));
    }
    (executable, args)
}

/// The bytes of a run of chunks, joined in reading order.
pub open spec fn concat_chunks(chunks: Seq<Seq<u8>>) -> Seq<u8>
    decreases chunks.len(),
{
    if chunks.len() == 0 {
        Seq::empty()
    } else {
        concat_chunks(chunks.drop_last()) + chunks.last()
    }
}

/// One `generate` call's external-process stream: the spawned child's
/// standard output is read chunk by chunk, every byte read so far is kept,
/// and each fragment is the lossy UTF-8 reading of the whole buffer.
pub struct ProcessStream {
    /// Every byte read from the child's standard output so far.
    pub buffer: Vec<u8>,
    /// Where in its life the stream stands.
    pub phase: StreamPhase,
}

impl ProcessStream {
    /// A fresh stream: nothing read, nothing spawned.
    pub fn new() -> (r: ProcessStream)
        ensures
            r.phase == StreamPhase::Idle,
            r.buffer@ == Seq::<u8>::empty(),
    {
        ProcessStream { buffer: Vec::new(), phase: StreamPhase::Idle }
    }

    /// The spawn attempt begins; no fragment can have been produced yet.
    pub fn begin_spawn(&mut self)
        requires
            old(self).phase == StreamPhase::Idle,
        ensures
            final(self).phase == StreamPhase::Starting,
            final(self).buffer == old(self).buffer,
    {
        self.phase = StreamPhase::Starting;
    }

    /// The child was spawned and its standard output is being read.
    pub fn on_spawn_ok(&mut self)
        requires
            old(self).phase == StreamPhase::Starting,
        ensures
            final(self).phase == StreamPhase::Streaming,
            final(self).buffer == old(self).buffer,
    {
        self.phase = StreamPhase::Streaming;
    }

    /// The executable could not be spawned: fatal, the stream ends with
    /// zero fragments produced.
    pub fn on_spawn_failure(&mut self) -> (e: GenerateError)
        requires
            old(self).phase == StreamPhase::Starting,
        ensures
            final(self).phase == StreamPhase::Failed,
            final(self).buffer == old(self).buffer,
            e == GenerateError::SpawnFailure,
    {
        self.phase = StreamPhase::Failed;
        GenerateError::SpawnFailure
    }

    /// A read delivered `chunk`: the bytes join everything read so far, and
    /// the next fragment is the lossy UTF-8 reading of the whole buffer,
    /// not of the new bytes alone.
    pub fn on_chunk(&mut self, chunk: &[u8]) -> (fragment: String)
        requires
            old(self).phase == StreamPhase::Streaming,
            chunk@.len() >= 1,
        ensures
            final(self).phase == StreamPhase::Streaming,
            final(self).buffer@ == old(self).buffer@ + chunk@,
            fragment@ == lossy_decode(old(self).buffer@ + chunk@),
    {
        let ghost read_before = self.buffer@;
        let mut i: usize = 0;
        while i < chunk.len()
            invariant
                i <= chunk@.len(),
                self.buffer@ == read_before + chunk@.subrange(0, i as int),
                self.phase == StreamPhase::Streaming,
            decreases chunk@.len() - i,
        {
            let b = chunk[i];
            self.buffer.push(b);
            proof {
                assert(read_before + chunk@.subrange(0, i as int) + seq![chunk@[i as int]]
                    =~= read_before + chunk@.subrange(0, i as int + 1));
            }
            i += 1;
        }
        proof {
            assert(chunk@.subrange(0, chunk@.len() as int) =~= chunk@);
        }
        lossy_utf8(&self.buffer)
    }

    /// Feeds every chunk in order, as if each had just been read from the
    /// child. Fragment `i` is the lossy UTF-8 reading of all bytes up to
    /// and including chunk `i` — cumulative, never chunk `i` alone — and
    /// the fragments stand in reading order.
    pub fn run_chunks(&mut self, chunks: &Vec<Vec<u8>>) -> (fragments: Vec<String>)
        requires
            old(self).phase == StreamPhase::Streaming,
            forall|i: int| 0 <= i < chunks@.len() ==> #[trigger] chunks@[i]@.len() >= 1,
        ensures
            final(self).phase == StreamPhase::Streaming,
            final(self).buffer@ == old(self).buffer@ + concat_chunks(chunks.deep_view()),
            fragments@.len() == chunks@.len(),
            forall|i: int| 0 <= i < chunks@.len() ==> #[trigger] fragments@[i]@ == lossy_decode(
                old(self).buffer@ + concat_chunks(chunks.deep_view().subrange(0, i + 1)),
            ),
    {
        let ghost base = self.buffer@;
        let mut fragments: Vec<String> = Vec::new();
        let mut i: usize = 0;
        while i < chunks.len()
            invariant
                i <= chunks@.len(),
                self.phase == StreamPhase::Streaming,
                self.buffer@ == base + concat_chunks(chunks.deep_view().subrange(0, i as int)),
                fragments@.len() == i,
                forall|j: int| 0 <= j < i ==> #[trigger] fragments@[j]@ == lossy_decode(
                    base + concat_chunks(chunks.deep_view().subrange(0, j + 1)),
                ),
                forall|j: int| 0 <= j < chunks@.len() ==> #[trigger] chunks@[j]@.len() >= 1,
            decreases chunks@.len() - i,
        {
            proof {
                assert(chunks.deep_view()[i as int] == chunks@[i as int]@);
            }
            let frag = self.on_chunk(chunks[i].as_slice());
            proof {
                let pre = chunks.deep_view().subrange(0, i as int);
                let ext = chunks.deep_view().subrange(0, i as int + 1);
                assert(ext.drop_last() =~= pre);
                assert(ext.last() == chunks@[i as int]@);
                assert(concat_chunks(ext) == concat_chunks(pre) + chunks@[i as int]@);
                assert(base + concat_chunks(pre) + chunks@[i as int]@ =~= base + (
                concat_chunks(pre) + chunks@[i as int]@));
                assert(frag@ == lossy_decode(base + concat_chunks(ext)));
            }
            fragments.push(frag);
            i += 1;
        }
        proof {
            assert(chunks.deep_view().subrange(0, chunks@.len() as int) =~= chunks.deep_view());
        }
        fragments
    }

    /// A read delivered no bytes: the child's output is exhausted and the
    /// stream ends normally.
    pub fn on_eof(&mut self)
        requires
            old(self).phase == StreamPhase::Streaming,
        ensures
            final(self).phase == StreamPhase::Completed,
            final(self).buffer == old(self).buffer,
    {
        self.phase = StreamPhase::Completed;
    }

    /// A read failed: the stream ends at the last fragment already
    /// produced, and no fragment stands for the failing read.
    pub fn on_read_error(&mut self)
        requires
            old(self).phase == StreamPhase::Streaming,
        ensures
            final(self).phase == StreamPhase::Failed,
            final(self).buffer == old(self).buffer,
    {
        self.phase = StreamPhase::Failed;
    }
}

} // verus!
