use vstd::prelude::*;
use vstd::utf8::{decode_utf8, encode_utf8, valid_utf8};

verus! {

/// Contains the connection details for the connection to the message broker.
pub struct ConnectionDetails {
    pub stream_id: u32,
    pub topic_id: u32,
    pub partition_id: u32,
}

impl Default for ConnectionDetails {
    fn default() -> (details: Self)
        ensures
            details.stream_id == 1,
            details.topic_id == 1,
            details.partition_id == 1,
    {
        ConnectionDetails { partition_id: 1, topic_id: 1, stream_id: 1 }
    }
}

/// The name under which the stream and its topic are created.
pub open spec fn stream_name() -> Seq<char> {
    seq!['t', 'e', 's', 't', '-', 's', 't', 'r', 'e', 'a', 'm']
}

/// How the messages of a topic are compressed.
pub enum Compression {
    /// No compression, the broker's default algorithm.
    Uncompressed,
    Gzip,
}

/// How long a topic keeps its messages.
pub enum MessageExpiry {
    /// As long as the broker's configuration says.
    ServerDefault,
    /// For the given number of microseconds.
    ExpireAfter(u64),
    /// For ever.
    NeverExpire,
}

/// How much a topic may hold.
pub enum TopicSizeLimit {
    /// As much as the broker's configuration says.
    ServerDefault,
    /// At most the given number of bytes.
    Bytes(u64),
}

/// What the producer creates on the broker before sending: a stream and one
/// topic in it, both named `test-stream` and given the ids of the connection
/// details; the topic has one partition, the default compression (uncompressed), no
/// replication factor, messages that never expire and no size limit of its
/// own.
pub struct BrokerSetup {
    pub stream_id: u32,
    pub stream_name: String,
    pub topic_id: u32,
    pub topic_name: String,
    pub partitions_count: u32,
    pub compression: Compression,
    pub replication_factor: Option<u8>,
    pub message_expiry: MessageExpiry,
    pub max_topic_size: TopicSizeLimit,
}

impl BrokerSetup {
    /// The stream and topic that `details` name.
    pub fn new(details: &ConnectionDetails) -> (setup: Self)
        ensures
            setup.stream_id == details.stream_id,
            setup.topic_id == details.topic_id,
            setup.stream_name@ == stream_name(),
            setup.topic_name@ == stream_name(),
            setup.partitions_count == 1,
            setup.compression == Compression::Uncompressed,
            setup.replication_factor is None,
            setup.message_expiry == MessageExpiry::NeverExpire,
            setup.max_topic_size == TopicSizeLimit::ServerDefault,
    {
        let name = String::from_str("test-stream");
        let topic_name = String::from_str("test-stream");
        proof {
            reveal_strlit("test-stream");
            assert(name@ =~= stream_name());
        }
        BrokerSetup {
            stream_id: details.stream_id,
            stream_name: name,
            topic_id: details.topic_id,
            topic_name,
            partitions_count: 1,
            compression: Compression::Uncompressed,
            replication_factor: None,
            message_expiry: MessageExpiry::NeverExpire,
            max_topic_size: TopicSizeLimit::ServerDefault,
        }
    }
}

/// One poll of the broker: from the partition of `details`, one message at
/// `offset`, without committing the offset on the broker.
pub struct PollRequest {
    pub stream_id: u32,
    pub topic_id: u32,
    pub partition_id: u32,
    pub offset: u64,
    pub count: u32,
    pub auto_commit: bool,
}

/// The consumer's position in the partition.
pub struct PollingState {
    pub offset: u64,
}

impl PollingState {
    /// Polling starts at the beginning of the partition.
    pub fn new() -> (s: Self)
        ensures
            s.offset == 0,
    {
        PollingState { offset: 0 }
    }

    /// The next poll to make.
    pub fn poll_request(&self, details: &ConnectionDetails) -> (req: PollRequest)
        ensures
            req.stream_id == details.stream_id,
            req.topic_id == details.topic_id,
            req.partition_id == details.partition_id,
            req.offset == self.offset,
            req.count == 1,
            !req.auto_commit,
    {
        PollRequest {
            stream_id: details.stream_id,
            topic_id: details.topic_id,
            partition_id: details.partition_id,
            offset: self.offset,
            count: 1,
            auto_commit: false,
        }
    }

    /// Records a poll that returned `message_count` messages; the offset moves
    /// past them. Returns whether there are messages to process: when there
    /// are none the consumer only waits for the next poll.
    pub fn on_polled(&mut self, message_count: u64) -> (process: bool)
        requires
            old(self).offset + message_count <= u64::MAX,
        ensures
            process == (message_count > 0),
            final(self).offset == old(self).offset + message_count,
    {
        self.offset = self.offset + message_count;
        message_count > 0
    }
}

/// `std::str::from_utf8`: `Ok` exactly for valid UTF-8, and then the text
/// that the bytes encode.
#[verifier::external_body]
fn utf8_to_string(bytes: &[u8]) -> (res: Option<String>)
    ensures
        res is Some <==> valid_utf8(bytes@),
        res matches Some(s) ==> s@ == decode_utf8(bytes@),
{
    match std::str::from_utf8(bytes) {
        Ok(s) => Some(s.to_string()),
        Err(_) => None,
    }
}

/// The file path that a message carries: its payload read as UTF-8 text,
/// `None` when the payload is not valid UTF-8.
pub fn handle_message(payload: &[u8]) -> (path: Option<String>)
    ensures
        path is Some <==> valid_utf8(payload@),
        path matches Some(s) ==> s@ == decode_utf8(payload@),
{
    utf8_to_string(payload)
}

/// The payload of the message that announces a file to process: the path's
/// UTF-8 bytes.
pub fn file_message_payload(path_to_file: &str) -> (payload: Vec<u8>)
    ensures
        payload@ == encode_utf8(path_to_file@),
{
    path_to_file.as_bytes_vec()
}

} // verus!
