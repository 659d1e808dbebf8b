//! Where the messages of a search go, and what is said about them.
use vstd::prelude::*;

use crate::decimal::{decimal, i64_to_string, signed_decimal, u64_to_string};

verus! {

/// How many messages are kept before they are stored.
pub const BATCH: usize = 100_000;

/// What becomes of a message that comes in.
#[derive(Debug, PartialEq, Eq)]
pub enum Step<T> {
    /// Show the message.
    Print(T),
    /// The message is kept.
    Keep,
    /// Store these messages, the newest last.
    Store(Vec<T>),
}

/// The mathematical counterpart of `Step`.
pub enum Stepped<T> {
    Print(T),
    Keep,
    Store(Seq<T>),
}

impl<T> View for Step<T> {
    type V = Stepped<T>;

    open spec fn view(&self) -> Stepped<T> {
        match *self {
            Step::Print(message) => Stepped::Print(message),
            Step::Keep => Stepped::Keep,
            Step::Store(batch) => Stepped::Store(batch@),
        }
    }
}

/// What becomes of a message, and the messages that are kept then.
pub open spec fn step_of<T>(to_stdout: bool, kept: Seq<T>, message: T) -> (Stepped<T>, Seq<T>) {
    if to_stdout {
        (Stepped::Print(message), kept)
    } else if kept.len() + 1 >= BATCH {
        (Stepped::Store(kept.push(message)), Seq::empty())
    } else {
        (Stepped::Keep, kept.push(message))
    }
}

/// Hands on the messages of a search: one by one to be shown, where neither a database nor an
/// MRT file was asked for, and else in batches to be stored.
pub struct MessageWriter<T> {
    to_stdout: bool,
    cache: Vec<T>,
    count: i32,
}

/// Whether messages go to a database or an MRT file; if so, progress is shown.
pub fn show_progress(has_database: bool, has_mrt_file: bool) -> (res: bool)
    ensures
        res == (has_database || has_mrt_file),
{
    has_database || has_mrt_file
}

impl<T> MessageWriter<T> {
    /// Whether messages are shown one by one.
    pub closed spec fn to_stdout(self) -> bool {
        self.to_stdout
    }

    /// The messages that are kept to be stored.
    pub closed spec fn kept(self) -> Seq<T> {
        self.cache@
    }

    /// How many messages have come in.
    pub closed spec fn count(self) -> int {
        self.count as int
    }

    #[verifier::type_invariant]
    spec fn inv(self) -> bool {
        &&& self.cache@.len() < BATCH
        &&& self.to_stdout ==> self.cache@.len() == 0
        &&& self.count >= 0
    }

    /// A writer that no message has come to.
    pub fn new(has_database: bool, has_mrt_file: bool) -> (res: Self)
        ensures
            res.to_stdout() == !(has_database || has_mrt_file),
            res.kept() == Seq::<T>::empty(),
            res.count() == 0,
    {
        MessageWriter {
            to_stdout: !show_progress(has_database, has_mrt_file),
            cache: Vec::new(),
            count: 0,
        }
    }

    /// How many messages have come in.
    pub fn message_count(&self) -> (res: i32)
        ensures
            res == self.count(),
    {
        self.count
    }

    /// Takes in a message and says what becomes of it.
    pub fn accept(&mut self, message: T) -> (res: Step<T>)
        requires
            old(self).count() < i32::MAX,
        ensures
            final(self).to_stdout() == old(self).to_stdout(),
            final(self).count() == old(self).count() + 1,
            (res@, final(self).kept()) == step_of(
                old(self).to_stdout(),
                old(self).kept(),
                message,
            ),
            match res {
                Step::Print(shown) => {
                    &&& old(self).to_stdout()
                    &&& shown == message
                    &&& final(self).kept() == old(self).kept()
                },
                Step::Keep => {
                    &&& !old(self).to_stdout()
                    &&& old(self).kept().len() + 1 < 100_000
                    &&& final(self).kept() == old(self).kept().push(message)
                },
                Step::Store(batch) => {
                    &&& !old(self).to_stdout()
                    &&& old(self).kept().len() + 1 >= 100_000
                    &&& batch@ == old(self).kept().push(message)
                    &&& final(self).kept() == Seq::<T>::empty()
                },
            },
    {
        proof {
            use_type_invariant(&*self);
        }
        self.count = self.count + 1;
        if self.to_stdout {
            return Step::Print(message);
        }
        let mut cache = Vec::new();
        std::mem::swap(&mut cache, &mut self.cache);
        cache.push(message);
        if cache.len() >= BATCH {
            Step::Store(cache)
        } else {
            self.cache = cache;
            Step::Keep
        }
    }

    /// Ends the writing: the messages that are still to be stored, if any, and what is then
    /// said, if messages were stored.
    pub fn finish(self, total_items: usize, path: &str) -> (res: (Option<Vec<T>>, Option<String>))
        ensures
            res.0 is Some <==> self.kept().len() > 0,
            res.0 matches Some(batch) ==> batch@ == self.kept(),
            res.1 is Some <==> !self.to_stdout(),
            res.1 matches Some(text) ==> text@ == summary(total_items as nat, self.count(), path@),
    {
        let text = if self.to_stdout {
            None
        } else {
            Some(
                "processed ".to_string().concat(u64_to_string(total_items as u64).as_str()).concat(
                    " files, found ",
                ).concat(i64_to_string(self.count as i64).as_str()).concat(
                    " messages, written into file ",
                ).concat(path),
            )
        };
        let rest = if self.cache.len() > 0 {
            Some(self.cache)
        } else {
            None
        };
        (rest, text)
    }
}

/// What is said when all messages are stored.
pub open spec fn summary(total_items: nat, count: int, path: Seq<char>) -> Seq<char> {
    "processed "@ + decimal(total_items) + " files, found "@ + signed_decimal(count)
        + " messages, written into file "@ + path
}

/// What has become of messages: the batches stored, the messages shown, and those kept.
pub struct Flow<T> {
    pub stored: Seq<Seq<T>>,
    pub shown: Seq<T>,
    pub kept: Seq<T>,
}

/// What becomes of `messages`, taken in one after the other by a new writer.
pub open spec fn flow_of<T>(to_stdout: bool, messages: Seq<T>) -> Flow<T>
    decreases messages.len(),
{
    if messages.len() == 0 {
        Flow { stored: Seq::empty(), shown: Seq::empty(), kept: Seq::empty() }
    } else {
        let flow = flow_of(to_stdout, messages.drop_last());
        let (step, kept) = step_of(to_stdout, flow.kept, messages.last());
        match step {
            Stepped::Print(message) => Flow { shown: flow.shown.push(message), kept, ..flow },
            Stepped::Keep => Flow { kept, ..flow },
            Stepped::Store(batch) => Flow { stored: flow.stored.push(batch), kept, ..flow },
        }
    }
}

/// The messages of batches, one batch after the other.
pub open spec fn joined<T>(batches: Seq<Seq<T>>) -> Seq<T>
    decreases batches.len(),
{
    if batches.len() == 0 {
        Seq::empty()
    } else {
        joined(batches.drop_last()) + batches.last()
    }
}

/// A writer that shows messages shows each of them once, in the order they came in.
pub proof fn every_message_is_shown<T>(messages: Seq<T>)
    ensures
        flow_of(true, messages).shown == messages,
        flow_of(true, messages).stored == Seq::<Seq<T>>::empty(),
        flow_of(true, messages).kept == Seq::<T>::empty(),
    decreases messages.len(),
{
    if messages.len() > 0 {
        every_message_is_shown(messages.drop_last());
        assert(messages =~= messages.drop_last().push(messages.last()));
    } else {
        assert(messages =~= Seq::<T>::empty());
    }
}

/// A writer that stores messages stores each of them once, in the order they came in, if what
/// is kept in the end is stored too; it shows none, stores whole batches only, and keeps less
/// than a batch.
pub proof fn every_message_is_stored<T>(messages: Seq<T>)
    ensures
        ({
            let flow = flow_of(false, messages);
            &&& joined(flow.stored) + flow.kept == messages
            &&& flow.shown == Seq::<T>::empty()
            &&& forall|i: int| 0 <= i < flow.stored.len() ==> #[trigger] flow.stored[i].len() == BATCH
            &&& flow.stored.len() == messages.len() / (BATCH as nat)
            &&& flow.kept.len() == messages.len() % (BATCH as nat)
        }),
    decreases messages.len(),
{
    if messages.len() > 0 {
        let before = flow_of(false, messages.drop_last());
        let flow = flow_of(false, messages);
        every_message_is_stored(messages.drop_last());
        assert(messages =~= messages.drop_last().push(messages.last()));
        if before.kept.len() + 1 >= BATCH {
            assert(flow.stored.drop_last() =~= before.stored);
            assert(joined(flow.stored) + flow.kept =~= joined(before.stored) + before.kept.push(
                messages.last(),
            ));
        }
        assert(joined(flow.stored) + flow.kept =~= messages);
    } else {
        assert(messages =~= Seq::<T>::empty());
    }
}

/// The sum of sizes.
pub open spec fn sum(sizes: Seq<i64>) -> int
    decreases sizes.len(),
{
    if sizes.len() == 0 {
        0
    } else {
        sum(sizes.drop_last()) + sizes.last()
    }
}

/// Whether sizes can be added up from the first to the last in 64 bits.
pub open spec fn sums_fit(sizes: Seq<i64>) -> bool {
    forall|n: int| 0 <= n <= sizes.len() ==> i64::MIN <= sum(#[trigger] sizes.take(n)) <= i64::MAX
}

/// Adds up the sizes of files, where 64 bits hold the sum all along.
pub fn total_size(sizes: &Vec<i64>) -> (res: Option<i64>)
    ensures
        res is Some <==> sums_fit(sizes@),
        res matches Some(total) ==> total == sum(sizes@),
{
    let mut total: i64 = 0;
    for i in 0..sizes.len()
        invariant
            total == sum(sizes@.take(i as int)),
            forall|n: int|
                0 <= n <= i ==> i64::MIN <= sum(#[trigger] sizes@.take(n)) <= i64::MAX,
    {
        assert(sizes@.take(i + 1).drop_last() =~= sizes@.take(i as int));
        match total.checked_add(sizes[i]) {
            Some(next) => {
                total = next;
            },
            None => {
                assert(!(i64::MIN <= sum(sizes@.take(i + 1)) <= i64::MAX));
                return None;
            },
        }
    }
    assert(sizes@.take(sizes@.len() as int) =~= sizes@);
    Some(total)
}

/// What is said about the files of a search before they are read.
pub fn files_text(files: usize, bytes: i64) -> (res: String)
    ensures
        res@ == "total of "@ + decimal(files as nat) + " files, "@ + signed_decimal(bytes as int)
            + " bytes to parse"@,
{
    "total of ".to_string().concat(u64_to_string(files as u64).as_str()).concat(" files, ").concat(
        i64_to_string(bytes).as_str(),
    ).concat(" bytes to parse")
}

/// How many messages the files read so far held.
#[derive(Debug)]
pub struct Progress {
    pub total: u64,
}

impl Progress {
    /// No file has been read.
    pub fn new() -> (res: Progress)
        ensures
            res.total == 0,
    {
        Progress { total: 0 }
    }

    /// Takes in the count of a file that was read, and says what is shown then.
    pub fn add_file(&mut self, count: u32) -> (res: String)
        requires
            old(self).total + count <= u64::MAX,
        ensures
            final(self).total == old(self).total + count,
            res@ == "found "@ + decimal(final(self).total as nat) + " messages"@,
    {
        self.total = self.total + count as u64;
        "found ".to_string().concat(u64_to_string(self.total).as_str()).concat(" messages")
    }
}

/// Messages go into a file or a database in batches of a hundred thousand; only then is anything
/// stored, and only where neither was asked for is anything shown.
pub proof fn batches_have_a_hundred_thousand_messages<T>(kept: Seq<T>, message: T)
    ensures
        step_of(true, kept, message) == (Stepped::Print(message), kept),
        kept.len() < 99_999 ==> step_of(false, kept, message) == (
            Stepped::<T>::Keep,
            kept.push(message),
        ),
        kept.len() >= 99_999 ==> step_of(false, kept, message) == (
            Stepped::Store(kept.push(message)),
            Seq::<T>::empty(),
        ),
{
}

/// No message of a search gets lost, comes twice or changes its place: the messages that were
/// stored and those that are kept have one entry for each message, in its place.
pub proof fn every_message_keeps_its_place<T>(messages: Seq<T>)
    ensures
        ({
            let flow = flow_of(false, messages);
            let all = joined(flow.stored) + flow.kept;
            &&& all.len() == messages.len()
            &&& forall|i: int| 0 <= i < messages.len() ==> #[trigger] all[i] == messages[i]
            &&& flow.kept.len() < 100_000
            &&& forall|i: int|
                0 <= i < flow.stored.len() ==> #[trigger] flow.stored[i].len() == 100_000
        }),
{
    every_message_is_stored(messages);
}

/// What is said in the end names the files, the messages that came in, and the database.
pub proof fn search_is_summed_up<T>(
    writer: MessageWriter<T>,
    total_items: usize,
    path: &str,
    files: String,
    found: String,
    res: (Option<Vec<T>>, Option<String>),
)
    requires
        0 <= writer.count() <= i32::MAX,
        call_ensures(u64_to_string, (total_items as u64,), files),
        call_ensures(u64_to_string, (writer.count() as u64,), found),
        call_ensures(MessageWriter::<T>::finish, (writer, total_items, path), res),
    ensures
        writer.to_stdout() ==> res.1 is None,
        !writer.to_stdout() ==> (res.1 matches Some(text) && text@ == "processed "@ + files@
            + " files, found "@ + found@ + " messages, written into file "@ + path@),
        writer.kept().len() == 0 ==> res.0 is None,
        writer.kept().len() > 0 ==> (res.0 matches Some(batch) && batch@ == writer.kept()),
{
}

/// No files have no size.
pub proof fn no_files_have_no_size(sizes: Vec<i64>, total: Option<i64>)
    requires
        sizes@.len() == 0,
        call_ensures(total_size, (&sizes,), total),
    ensures
        total == Some(0i64),
{
    assert(sums_fit(sizes@)) by {
        assert forall|n: int| 0 <= n <= sizes@.len() implies i64::MIN <= sum(
            #[trigger] sizes@.take(n),
        ) <= i64::MAX by {
            assert(sizes@.take(n).len() == 0);
        }
    }
}

/// One more file makes the total larger by its size, if 64 bits hold that; where they did not
/// hold the total before, they hold none now.
pub proof fn one_more_file_adds_its_size(
    sizes: Vec<i64>,
    more: Vec<i64>,
    size: i64,
    total: Option<i64>,
    more_total: Option<i64>,
)
    requires
        more@ == sizes@.push(size),
        call_ensures(total_size, (&sizes,), total),
        call_ensures(total_size, (&more,), more_total),
    ensures
        more_total == (if total is Some && i64::MIN <= total->0 + size <= i64::MAX {
            Some((total->0 + size) as i64)
        } else {
            None::<i64>
        }),
{
    let a = sizes@;
    let b = more@;
    assert(b.drop_last() =~= a);
    assert forall|n: int| 0 <= n <= a.len() implies #[trigger] a.take(n) == b.take(n) by {
        assert(a.take(n) =~= b.take(n));
    }
    assert(b.take(b.len() as int) =~= b);
    if sums_fit(b) {
        assert(sums_fit(a)) by {
            assert forall|n: int| 0 <= n <= a.len() implies i64::MIN <= sum(#[trigger] a.take(n))
                <= i64::MAX by {
                assert(a.take(n) == b.take(n));
            }
        }
        assert(i64::MIN <= sum(b.take(b.len() as int)) <= i64::MAX);
    }
    if sums_fit(a) && i64::MIN <= sum(b) <= i64::MAX {
        assert forall|n: int| 0 <= n <= b.len() implies i64::MIN <= sum(#[trigger] b.take(n))
            <= i64::MAX by {
            if n <= a.len() {
                assert(a.take(n) == b.take(n));
            }
        }
        assert(sums_fit(b));
    }
}

/// What is said of the files names how many they are and what they come to, both in full.
pub proof fn files_are_summed_up(
    files: usize,
    bytes: i64,
    number: String,
    size: String,
    text: String,
)
    requires
        call_ensures(u64_to_string, (files as u64,), number),
        call_ensures(i64_to_string, (bytes,), size),
        call_ensures(files_text, (files, bytes), text),
    ensures
        text@ == "total of "@ + number@ + " files, "@ + size@ + " bytes to parse"@,
{
}

/// A writer shows messages where neither a database nor an MRT file was asked for; it starts with
/// none counted and none kept. Where one was, progress is shown instead.
pub proof fn writer_starts_with_nothing<T>(
    has_database: bool,
    has_mrt_file: bool,
    progress: bool,
    writer: MessageWriter<T>,
    count: i32,
)
    requires
        call_ensures(show_progress, (has_database, has_mrt_file), progress),
        call_ensures(MessageWriter::<T>::new, (has_database, has_mrt_file), writer),
        call_ensures(MessageWriter::<T>::message_count, (&writer,), count),
    ensures
        progress <==> has_database || has_mrt_file,
        writer.to_stdout() <==> !progress,
        count == 0,
        writer.kept().len() == 0,
{
}

/// A message that comes in is counted, and is then in one place: shown, kept behind those that were
/// kept, or stored with them as a batch of a hundred thousand or more.
pub proof fn message_is_in_one_place<T>(
    writer: &mut MessageWriter<T>,
    message: T,
    step: Step<T>,
    before: i32,
    after: i32,
)
    requires
        call_ensures(MessageWriter::<T>::message_count, (&*old(writer),), before),
        call_ensures(MessageWriter::<T>::accept, (writer, message), step),
        call_ensures(MessageWriter::<T>::message_count, (&*final(writer),), after),
    ensures
        after == before + 1,
        final(writer).to_stdout() == old(writer).to_stdout(),
        step is Print <==> old(writer).to_stdout(),
        step is Store <==> !old(writer).to_stdout() && old(writer).kept().len() >= 99_999,
        step matches Step::Print(shown) ==> shown == message,
        step is Print ==> final(writer).kept() == old(writer).kept(),
        step is Keep ==> final(writer).kept() == old(writer).kept() + seq![message],
        step matches Step::Store(batch) ==> batch@ == old(writer).kept() + seq![message],
        step is Store ==> final(writer).kept().len() == 0,
{
    assert(old(writer).kept() + seq![message] =~= old(writer).kept().push(message));
}

/// Progress starts at none, and grows by the count of each file; what is shown is the sum, written
/// in full.
pub proof fn progress_is_the_sum_of_counts(
    start: Progress,
    progress: &mut Progress,
    count: u32,
    said: String,
    written: String,
)
    requires
        call_ensures(Progress::new, (), start),
        old(progress).total + count <= u64::MAX,
        call_ensures(Progress::add_file, (progress, count), said),
        call_ensures(u64_to_string, ((old(progress).total + count) as u64,), written),
    ensures
        start.total == 0,
        final(progress).total == old(progress).total + count,
        said@ == "found "@ + written@ + " messages"@,
{
}

} // verus!
