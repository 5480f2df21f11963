//! What the wrappers of one foreign library add by hand: the builder of
//! channel addresses, the kinds of system counters, and the handler that
//! puts the library's errors into words.

use crate::common::{AeronCError, ControlMode, Media};
use crate::model::{
    key_index, lemma_key_index, lemma_key_index_is, lemma_key_index_none, pairs_view,
};
use crate::text::{chars_of, int_to_text, signed_decimal, str_eq, text_of};
use vstd::prelude::*;
use vstd::string::StringExecFns;

verus! {

pub const AERON_IPC_STREAM: &'static str = "aeron:ipc";

/// The keys of a list of parameters, in order.
pub open spec fn param_keys(params: Seq<(Seq<char>, Seq<char>)>) -> Seq<Seq<char>> {
    params.map_values(|p: (Seq<char>, Seq<char>)| p.0)
}

/// The parameters after `key` is set to `value`: the value takes the place
/// of the one that `key` had, and stands at the end where it had none.
pub open spec fn put_param(
    params: Seq<(Seq<char>, Seq<char>)>,
    key: Seq<char>,
    value: Seq<char>,
) -> Seq<(Seq<char>, Seq<char>)> {
    let i = key_index(param_keys(params), key);
    if 0 <= i < params.len() {
        params.update(i, (key, value))
    } else {
        params.push((key, value))
    }
}

/// The value that `key` is set to.
pub open spec fn param_value(params: Seq<(Seq<char>, Seq<char>)>, key: Seq<char>) -> Option<
    Seq<char>,
> {
    let i = key_index(param_keys(params), key);
    if 0 <= i < params.len() {
        Some(params[i].1)
    } else {
        None
    }
}

/// No key stands twice.
pub open spec fn distinct_keys(params: Seq<(Seq<char>, Seq<char>)>) -> bool {
    forall|i: int, j: int|
        0 <= i < j < params.len() ==> (#[trigger] params[i]).0 != (#[trigger] params[j]).0
}

/// The key is one of the two that do not stand among the parameters of an
/// address: the qualifier and the media.
pub open spec fn is_special_key(key: Seq<char>) -> bool {
    key == "__prefix"@ || key == "__media"@
}

/// The word for a flag.
pub open spec fn flag_text(value: bool) -> Seq<char> {
    if value {
        "true"@
    } else {
        "false"@
    }
}

/// The parameters as they stand in an address: `?` before the first, `|`
/// before each other, and each as `key=value`.
pub open spec fn query(params: Seq<(Seq<char>, Seq<char>)>) -> Seq<char>
    decreases params.len(),
{
    if params.len() == 0 {
        Seq::<char>::empty()
    } else {
        let rest = query(params.drop_last());
        let last = params.last();
        if is_special_key(last.0) {
            rest
        } else if rest.len() == 0 {
            rest + "?"@ + last.0 + "="@ + last.1
        } else {
            rest + "|"@ + last.0 + "="@ + last.1
        }
    }
}

/// The qualifier with its colon; nothing where none is set or it is empty.
pub open spec fn qualifier(params: Seq<(Seq<char>, Seq<char>)>) -> Seq<char> {
    match param_value(params, "__prefix"@) {
        Some(p) => if p.len() == 0 {
            p
        } else {
            p + ":"@
        },
        None => Seq::<char>::empty(),
    }
}

/// The address that the parameters stand for, where the media is set: the
/// qualifier, the scheme `aeron:`, the media, and the parameters in the order
/// in which they were first set.
pub open spec fn address(params: Seq<(Seq<char>, Seq<char>)>) -> Seq<char> {
    qualifier(params) + "aeron:"@ + param_value(params, "__media"@)->0 + query(params)
}

/// Setting a key keeps every key single, sets that key, and leaves the
/// others as they were.
pub proof fn lemma_put_param(
    params: Seq<(Seq<char>, Seq<char>)>,
    key: Seq<char>,
    value: Seq<char>,
    other: Seq<char>,
)
    requires
        distinct_keys(params),
    ensures
        distinct_keys(put_param(params, key, value)),
        param_value(put_param(params, key, value), key) == Some(value),
        other != key ==> param_value(put_param(params, key, value), other) == param_value(
            params,
            other,
        ),
{
    let after = put_param(params, key, value);
    let keys = param_keys(params);
    let keys_after = param_keys(after);
    lemma_key_index(keys, key);
    lemma_key_index(keys, other);
    let i = key_index(keys, key);
    assert forall|a: int, b: int| 0 <= a < b < after.len() implies (#[trigger] after[a]).0 != (
    #[trigger] after[b]).0 by {
        if b < params.len() {
            assert(params[a].0 != params[b].0);
            assert(keys[a] == params[a].0 && keys[b] == params[b].0);
        } else {
            assert(keys[a] == params[a].0);
        }
    }
    if i >= 0 {
        assert(keys_after =~= keys);
    } else {
        assert(keys_after =~= keys.push(key));
        assert forall|j: int| 0 <= j < keys.len() implies #[trigger] keys_after[j] != key by {
            assert(keys_after[j] == keys[j]);
        }
        lemma_key_index_is(keys_after, key, keys.len() as int);
    }
    if other != key {
        let o = key_index(keys, other);
        if o >= 0 {
            assert forall|j: int| 0 <= j < o implies #[trigger] keys_after[j] != other by {
                assert(keys_after[j] == keys[j]);
            }
            lemma_key_index_is(keys_after, other, o);
        } else {
            assert forall|j: int| 0 <= j < keys_after.len() implies #[trigger] keys_after[j]
                != other by {
                if j < keys.len() {
                    assert(keys_after[j] == keys[j]);
                }
            }
            lemma_key_index_none(keys_after, other);
        }
    }
}

/// The builder of a channel address: the media, an optional qualifier, and
/// parameters, each key once, in the order in which the keys were first set.
#[derive(Debug, Clone, Default, PartialEq, Eq)]
pub struct AeronUriStringBuilder {
    params: Vec<(String, String)>,
}

impl View for AeronUriStringBuilder {
    type V = Seq<(Seq<char>, Seq<char>)>;

    closed spec fn view(&self) -> Seq<(Seq<char>, Seq<char>)> {
        pairs_view(self.params@)
    }
}

impl AeronUriStringBuilder {
    /// The builder in which nothing is set.
    pub fn new() -> (b: Self)
        ensures
            b@ == Seq::<(Seq<char>, Seq<char>)>::empty(),
    {
        let b = AeronUriStringBuilder { params: Vec::new() };
        assert(b@ =~= Seq::<(Seq<char>, Seq<char>)>::empty());
        b
    }

    fn find(&self, key: &str) -> (r: Option<usize>)
        ensures
            match r {
                Some(i) => i < self@.len() && i == key_index(param_keys(self@), key@),
                None => key_index(param_keys(self@), key@) == -1,
            },
    {
        let ghost keys = param_keys(self@);
        let mut i: usize = 0;
        while i < self.params.len()
            invariant
                i <= self.params.len(),
                keys == param_keys(self@),
                self@.len() == self.params.len(),
                forall|j: int| 0 <= j < i ==> #[trigger] keys[j] != key@,
            decreases self.params.len() - i,
        {
            if str_eq(self.params[i].0.as_str(), key) {
                proof {
                    lemma_key_index_is(keys, key@, i as int);
                }
                return Some(i);
            }
            i += 1;
        }
        proof {
            lemma_key_index_none(keys, key@);
        }
        None
    }

    /// The value that `key` is set to.
    pub fn get(&self, key: &str) -> (r: Option<String>)
        ensures
            match r {
                Some(v) => param_value(self@, key@) == Some(v@),
                None => param_value(self@, key@) is None,
            },
    {
        match self.find(key) {
            Some(i) => Some(self.params[i].1.clone()),
            None => None,
        }
    }

    /// Sets `key` to `value`.
    pub fn put(&mut self, key: &str, value: &str) -> (r: Result<&mut Self, AeronCError>)
        ensures
            r is Ok,
            r matches Ok(b) ==> b@ == put_param(old(self)@, key@, value@) && *final(self)
                == *final(b),
    {
        let ghost before = self@;
        let pair = (String::from_str(key), String::from_str(value));
        match self.find(key) {
            Some(i) => {
                self.params[i] = pair;
                assert(self@ =~= before.update(i as int, (key@, value@)));
            },
            None => {
                self.params.push(pair);
                assert(self@ =~= before.push((key@, value@)));
            },
        }
        Ok(self)
    }

    /// Sets `key` to the decimal form of `value`.
    pub fn put_int32(&mut self, key: &str, value: i32) -> (r: Result<&mut Self, AeronCError>)
        ensures
            r is Ok,
            r matches Ok(b) ==> b@ == put_param(old(self)@, key@, signed_decimal(value as int))
                && *final(self) == *final(b),
    {
        let digits = int_to_text(value as i64);
        self.put(key, digits.as_str())
    }

    /// Sets `key` to the decimal form of `value`.
    pub fn put_int64(&mut self, key: &str, value: i64) -> (r: Result<&mut Self, AeronCError>)
        ensures
            r is Ok,
            r matches Ok(b) ==> b@ == put_param(old(self)@, key@, signed_decimal(value as int))
                && *final(self) == *final(b),
    {
        let digits = int_to_text(value);
        self.put(key, digits.as_str())
    }

    /// Sets the media that the channel runs over.
    pub fn media(&mut self, value: Media) -> (r: Result<&mut Self, AeronCError>)
        ensures
            r is Ok,
            r matches Ok(b) ==> b@ == put_param(old(self)@, "__media"@, value.spec_str())
                && *final(self) == *final(b),
    {
        self.put("__media", value.as_str())
    }

    /// Sets how the control address is used.
    pub fn control_mode(&mut self, value: ControlMode) -> (r: Result<&mut Self, AeronCError>)
        ensures
            r is Ok,
            r matches Ok(b) ==> b@ == put_param(old(self)@, "control-mode"@, value.spec_str())
                && *final(self) == *final(b),
    {
        self.put("control-mode", value.as_str())
    }

    /// Sets the qualifier that stands before the scheme, such as `aeron-spy`.
    pub fn prefix(&mut self, value: &str) -> (r: Result<&mut Self, AeronCError>)
        ensures
            r is Ok,
            r matches Ok(b) ==> b@ == put_param(old(self)@, "__prefix"@, value@) && *final(self)
                == *final(b),
    {
        self.put("__prefix", value)
    }

    /// Sets the parameter `init-term-id`.
    pub fn initial_term_id(&mut self, value: i32) -> (r: Result<&mut Self, AeronCError>)
        ensures
            r is Ok,
            r matches Ok(b) ==> b@ == put_param(old(self)@, "init-term-id"@, signed_decimal(value as int)) && *final(self)
                == *final(b),
    {
        self.put_int32("init-term-id", value)
    }

    /// Sets the parameter `term-id`.
    pub fn term_id(&mut self, value: i32) -> (r: Result<&mut Self, AeronCError>)
        ensures
            r is Ok,
            r matches Ok(b) ==> b@ == put_param(old(self)@, "term-id"@, signed_decimal(value as int)) && *final(self)
                == *final(b),
    {
        self.put_int32("term-id", value)
    }

    /// Sets the parameter `term-offset`.
    pub fn term_offset(&mut self, value: i32) -> (r: Result<&mut Self, AeronCError>)
        ensures
            r is Ok,
            r matches Ok(b) ==> b@ == put_param(old(self)@, "term-offset"@, signed_decimal(value as int)) && *final(self)
                == *final(b),
    {
        self.put_int32("term-offset", value)
    }

    /// Sets the parameter `alias`.
    pub fn alias(&mut self, value: &str) -> (r: Result<&mut Self, AeronCError>)
        ensures
            r is Ok,
            r matches Ok(b) ==> b@ == put_param(old(self)@, "alias"@, value@) && *final(self)
                == *final(b),
    {
        self.put("alias", value)
    }

    /// Sets the parameter `term-length`.
    pub fn term_length(&mut self, value: &str) -> (r: Result<&mut Self, AeronCError>)
        ensures
            r is Ok,
            r matches Ok(b) ==> b@ == put_param(old(self)@, "term-length"@, value@) && *final(self)
                == *final(b),
    {
        self.put("term-length", value)
    }

    /// Sets the parameter `linger`.
    pub fn linger_timeout(&mut self, value: i64) -> (r: Result<&mut Self, AeronCError>)
        ensures
            r is Ok,
            r matches Ok(b) ==> b@ == put_param(old(self)@, "linger"@, signed_decimal(value as int)) && *final(self)
                == *final(b),
    {
        self.put_int64("linger", value)
    }

    /// Sets the parameter `mtu`.
    pub fn mtu_length(&mut self, value: i32) -> (r: Result<&mut Self, AeronCError>)
        ensures
            r is Ok,
            r matches Ok(b) ==> b@ == put_param(old(self)@, "mtu"@, signed_decimal(value as int)) && *final(self)
                == *final(b),
    {
        self.put_int32("mtu", value)
    }

    /// Sets the parameter `ttl`.
    pub fn ttl(&mut self, value: i32) -> (r: Result<&mut Self, AeronCError>)
        ensures
            r is Ok,
            r matches Ok(b) ==> b@ == put_param(old(self)@, "ttl"@, signed_decimal(value as int)) && *final(self)
                == *final(b),
    {
        self.put_int32("ttl", value)
    }

    /// Sets the parameter `sparse`.
    pub fn sparse_term(&mut self, value: bool) -> (r: Result<&mut Self, AeronCError>)
        ensures
            r is Ok,
            r matches Ok(b) ==> b@ == put_param(old(self)@, "sparse"@, flag_text(value)) && *final(self)
                == *final(b),
    {
        self.put("sparse", if value { "true" } else { "false" })
    }

    /// Sets the parameter `reliable`.
    pub fn reliable(&mut self, value: bool) -> (r: Result<&mut Self, AeronCError>)
        ensures
            r is Ok,
            r matches Ok(b) ==> b@ == put_param(old(self)@, "reliable"@, flag_text(value)) && *final(self)
                == *final(b),
    {
        self.put("reliable", if value { "true" } else { "false" })
    }

    /// Sets the parameter `eos`.
    pub fn eos(&mut self, value: bool) -> (r: Result<&mut Self, AeronCError>)
        ensures
            r is Ok,
            r matches Ok(b) ==> b@ == put_param(old(self)@, "eos"@, flag_text(value)) && *final(self)
                == *final(b),
    {
        self.put("eos", if value { "true" } else { "false" })
    }

    /// Sets the parameter `tether`.
    pub fn tether(&mut self, value: bool) -> (r: Result<&mut Self, AeronCError>)
        ensures
            r is Ok,
            r matches Ok(b) ==> b@ == put_param(old(self)@, "tether"@, flag_text(value)) && *final(self)
                == *final(b),
    {
        self.put("tether", if value { "true" } else { "false" })
    }

    /// Sets the parameter `tags`.
    pub fn tags(&mut self, value: &str) -> (r: Result<&mut Self, AeronCError>)
        ensures
            r is Ok,
            r matches Ok(b) ==> b@ == put_param(old(self)@, "tags"@, value@) && *final(self)
                == *final(b),
    {
        self.put("tags", value)
    }

    /// Sets the parameter `endpoint`.
    pub fn endpoint(&mut self, value: &str) -> (r: Result<&mut Self, AeronCError>)
        ensures
            r is Ok,
            r matches Ok(b) ==> b@ == put_param(old(self)@, "endpoint"@, value@) && *final(self)
                == *final(b),
    {
        self.put("endpoint", value)
    }

    /// Sets the parameter `interface`.
    pub fn interface(&mut self, value: &str) -> (r: Result<&mut Self, AeronCError>)
        ensures
            r is Ok,
            r matches Ok(b) ==> b@ == put_param(old(self)@, "interface"@, value@) && *final(self)
                == *final(b),
    {
        self.put("interface", value)
    }

    /// Sets the parameter `control`.
    pub fn control(&mut self, value: &str) -> (r: Result<&mut Self, AeronCError>)
        ensures
            r is Ok,
            r matches Ok(b) ==> b@ == put_param(old(self)@, "control"@, value@) && *final(self)
                == *final(b),
    {
        self.put("control", value)
    }

    /// Sets the parameter `session-id`.
    pub fn session_id(&mut self, value: &str) -> (r: Result<&mut Self, AeronCError>)
        ensures
            r is Ok,
            r matches Ok(b) ==> b@ == put_param(old(self)@, "session-id"@, value@) && *final(self)
                == *final(b),
    {
        self.put("session-id", value)
    }

    /// Sets the parameter `group`.
    pub fn group(&mut self, value: bool) -> (r: Result<&mut Self, AeronCError>)
        ensures
            r is Ok,
            r matches Ok(b) ==> b@ == put_param(old(self)@, "group"@, flag_text(value)) && *final(self)
                == *final(b),
    {
        self.put("group", if value { "true" } else { "false" })
    }

    /// Sets the parameter `rejoin`.
    pub fn rejoin(&mut self, value: bool) -> (r: Result<&mut Self, AeronCError>)
        ensures
            r is Ok,
            r matches Ok(b) ==> b@ == put_param(old(self)@, "rejoin"@, flag_text(value)) && *final(self)
                == *final(b),
    {
        self.put("rejoin", if value { "true" } else { "false" })
    }

    /// Sets the parameter `fc`.
    pub fn fc(&mut self, value: &str) -> (r: Result<&mut Self, AeronCError>)
        ensures
            r is Ok,
            r matches Ok(b) ==> b@ == put_param(old(self)@, "fc"@, value@) && *final(self)
                == *final(b),
    {
        self.put("fc", value)
    }

    /// Sets the parameter `gtag`.
    pub fn gtag(&mut self, value: &str) -> (r: Result<&mut Self, AeronCError>)
        ensures
            r is Ok,
            r matches Ok(b) ==> b@ == put_param(old(self)@, "gtag"@, value@) && *final(self)
                == *final(b),
    {
        self.put("gtag", value)
    }

    /// Sets the parameter `cc`.
    pub fn cc(&mut self, value: &str) -> (r: Result<&mut Self, AeronCError>)
        ensures
            r is Ok,
            r matches Ok(b) ==> b@ == put_param(old(self)@, "cc"@, value@) && *final(self)
                == *final(b),
    {
        self.put("cc", value)
    }

    /// Sets the parameter `ssc`.
    pub fn spies_simulate_connection(&mut self, value: bool) -> (r: Result<&mut Self, AeronCError>)
        ensures
            r is Ok,
            r matches Ok(b) ==> b@ == put_param(old(self)@, "ssc"@, flag_text(value)) && *final(self)
                == *final(b),
    {
        self.put("ssc", if value { "true" } else { "false" })
    }

    /// Sets the parameter `ats`.
    pub fn ats(&mut self, value: bool) -> (r: Result<&mut Self, AeronCError>)
        ensures
            r is Ok,
            r matches Ok(b) ==> b@ == put_param(old(self)@, "ats"@, flag_text(value)) && *final(self)
                == *final(b),
    {
        self.put("ats", if value { "true" } else { "false" })
    }

    /// Sets the parameter `so-sndbuf`.
    pub fn socket_sndbuf(&mut self, value: i32) -> (r: Result<&mut Self, AeronCError>)
        ensures
            r is Ok,
            r matches Ok(b) ==> b@ == put_param(old(self)@, "so-sndbuf"@, signed_decimal(value as int)) && *final(self)
                == *final(b),
    {
        self.put_int32("so-sndbuf", value)
    }

    /// Sets the parameter `so-rcvbuf`.
    pub fn socket_rcvbuf(&mut self, value: i32) -> (r: Result<&mut Self, AeronCError>)
        ensures
            r is Ok,
            r matches Ok(b) ==> b@ == put_param(old(self)@, "so-rcvbuf"@, signed_decimal(value as int)) && *final(self)
                == *final(b),
    {
        self.put_int32("so-rcvbuf", value)
    }

    /// Sets the parameter `rcv-wnd`.
    pub fn receiver_window(&mut self, value: i32) -> (r: Result<&mut Self, AeronCError>)
        ensures
            r is Ok,
            r matches Ok(b) ==> b@ == put_param(old(self)@, "rcv-wnd"@, signed_decimal(value as int)) && *final(self)
                == *final(b),
    {
        self.put_int32("rcv-wnd", value)
    }

    /// Sets the parameter `media-rcv-ts-offset`.
    pub fn media_rcv_timestamp_offset(&mut self, value: &str) -> (r: Result<&mut Self, AeronCError>)
        ensures
            r is Ok,
            r matches Ok(b) ==> b@ == put_param(old(self)@, "media-rcv-ts-offset"@, value@) && *final(self)
                == *final(b),
    {
        self.put("media-rcv-ts-offset", value)
    }

    /// Sets the parameter `channel-rcv-ts-offset`.
    pub fn channel_rcv_timestamp_offset(&mut self, value: &str) -> (r: Result<&mut Self, AeronCError>)
        ensures
            r is Ok,
            r matches Ok(b) ==> b@ == put_param(old(self)@, "channel-rcv-ts-offset"@, value@) && *final(self)
                == *final(b),
    {
        self.put("channel-rcv-ts-offset", value)
    }

    /// Sets the parameter `channel-snd-ts-offset`.
    pub fn channel_snd_timestamp_offset(&mut self, value: &str) -> (r: Result<&mut Self, AeronCError>)
        ensures
            r is Ok,
            r matches Ok(b) ==> b@ == put_param(old(self)@, "channel-snd-ts-offset"@, value@) && *final(self)
                == *final(b),
    {
        self.put("channel-snd-ts-offset", value)
    }

    /// Sets the parameter `reserved`.
    pub fn timestamp_offset_reserved(&mut self, value: &str) -> (r: Result<&mut Self, AeronCError>)
        ensures
            r is Ok,
            r matches Ok(b) ==> b@ == put_param(old(self)@, "reserved"@, value@) && *final(self)
                == *final(b),
    {
        self.put("reserved", value)
    }

    /// Sets the parameter `response-correlation-id`.
    pub fn response_correlation_id(&mut self, value: i64) -> (r: Result<&mut Self, AeronCError>)
        ensures
            r is Ok,
            r matches Ok(b) ==> b@ == put_param(old(self)@, "response-correlation-id"@, signed_decimal(value as int)) && *final(self)
                == *final(b),
    {
        self.put_int64("response-correlation-id", value)
    }

    /// Sets the parameter `nak-delay`.
    pub fn nak_delay(&mut self, value: i64) -> (r: Result<&mut Self, AeronCError>)
        ensures
            r is Ok,
            r matches Ok(b) ==> b@ == put_param(old(self)@, "nak-delay"@, signed_decimal(value as int)) && *final(self)
                == *final(b),
    {
        self.put_int64("nak-delay", value)
    }

    /// Sets the parameter `untethered-window-limit-timeout`.
    pub fn untethered_window_limit_timeout(&mut self, value: i64) -> (r: Result<&mut Self, AeronCError>)
        ensures
            r is Ok,
            r matches Ok(b) ==> b@ == put_param(old(self)@, "untethered-window-limit-timeout"@, signed_decimal(value as int)) && *final(self)
                == *final(b),
    {
        self.put_int64("untethered-window-limit-timeout", value)
    }

    /// Sets the parameter `untethered-resting-timeout`.
    pub fn untethered_resting_timeout(&mut self, value: i64) -> (r: Result<&mut Self, AeronCError>)
        ensures
            r is Ok,
            r matches Ok(b) ==> b@ == put_param(old(self)@, "untethered-resting-timeout"@, signed_decimal(value as int)) && *final(self)
                == *final(b),
    {
        self.put_int64("untethered-resting-timeout", value)
    }

    /// Sets the parameter `max-resend`.
    pub fn max_resend(&mut self, value: i32) -> (r: Result<&mut Self, AeronCError>)
        ensures
            r is Ok,
            r matches Ok(b) ==> b@ == put_param(old(self)@, "max-resend"@, signed_decimal(value as int)) && *final(self)
                == *final(b),
    {
        self.put_int32("max-resend", value)
    }

    /// Sets the parameter `stream-id`.
    pub fn stream_id(&mut self, value: i32) -> (r: Result<&mut Self, AeronCError>)
        ensures
            r is Ok,
            r matches Ok(b) ==> b@ == put_param(old(self)@, "stream-id"@, signed_decimal(value as int)) && *final(self)
                == *final(b),
    {
        self.put_int32("stream-id", value)
    }

    /// Sets the parameter `pub-wnd`.
    pub fn publication_window(&mut self, value: i32) -> (r: Result<&mut Self, AeronCError>)
        ensures
            r is Ok,
            r matches Ok(b) ==> b@ == put_param(old(self)@, "pub-wnd"@, signed_decimal(value as int)) && *final(self)
                == *final(b),
    {
        self.put_int32("pub-wnd", value)
    }

    /// Writes the address into `dst`, in place of what `dst` held. Without
    /// a media there is no address: that is the error `-1`, and `dst` is left
    /// as it was.
    pub fn build_into(&self, dst: &mut String) -> (r: Result<(), AeronCError>)
        ensures
            r is Ok <==> param_value(self@, "__media"@) is Some,
            r is Ok ==> final(dst)@ == address(self@),
            r matches Err(e) ==> e.code == -1 && final(dst)@ == old(dst)@,
    {
        let media = match self.get("__media") {
            Some(m) => m,
            None => {
                return Err(AeronCError::from_code(-1));
            },
        };
        let mut out = String::new();
        match self.get("__prefix") {
            Some(p) => {
                if chars_of(p.as_str()).len() > 0 {
                    out.append(p.as_str());
                    out.append(":");
                    assert(out@ =~= qualifier(self@));
                } else {
                    assert(out@ =~= qualifier(self@));
                }
            },
            None => {},
        }
        out.append("aeron:");
        out.append(media.as_str());
        let ghost start = out@;
        let mut started = false;
        let mut i: usize = 0;
        assert(self@.take(0) =~= Seq::<(Seq<char>, Seq<char>)>::empty());
        assert(start + query(self@.take(0)) =~= start);
        while i < self.params.len()
            invariant
                i <= self.params.len(),
                self@.len() == self.params.len(),
                out@ == start + query(self@.take(i as int)),
                started == (query(self@.take(i as int)).len() > 0),
            decreases self.params.len() - i,
        {
            let ghost done = query(self@.take(i as int));
            proof {
                let t = self@.take(i + 1);
                assert(t.drop_last() =~= self@.take(i as int));
                assert(t.last() == self@[i as int]);
            }
            let key = self.params[i].0.as_str();
            if !(str_eq(key, "__prefix") || str_eq(key, "__media")) {
                if started {
                    out.append("|");
                    assert(out@ =~= start + (done + "|"@));
                } else {
                    out.append("?");
                    assert(out@ =~= start + (done + "?"@));
                }
                let ghost sep = if started {
                    "|"@
                } else {
                    "?"@
                };
                out.append(key);
                out.append("=");
                out.append(self.params[i].1.as_str());
                assert(out@ =~= start + (done + sep + key@ + "="@ + self@[i as int].1));
                proof {
                    reveal_strlit("=");
                    assert((done + sep + key@ + "="@ + self@[i as int].1).len() > 0);
                }
                started = true;
            }
            i += 1;
        }
        assert(self@.take(self.params.len() as int) =~= self@);
        *dst = out;
        Ok(())
    }

    /// The address, where it has fewer than `max_str_length` characters.
    /// Without a media, and where the address is as long as that or longer,
    /// the error is `-1`.
    pub fn build(&self, max_str_length: usize) -> (r: Result<String, AeronCError>)
        ensures
            r is Ok <==> param_value(self@, "__media"@) is Some && address(self@).len()
                < max_str_length,
            r matches Ok(s) ==> s@ == address(self@),
            r matches Err(e) ==> e.code == -1,
    {
        let mut result = String::new();
        match self.build_into(&mut result) {
            Ok(()) => {},
            Err(e) => {
                return Err(e);
            },
        }
        if chars_of(result.as_str()).len() < max_str_length {
            Ok(result)
        } else {
            Err(AeronCError::from_code(-1))
        }
    }
}

/// The kinds of counters that the media driver keeps of itself, each with
/// the type id that it has in the counters file.
#[derive(Debug, Copy, Clone, Hash, PartialEq, Eq, Structural)]
pub enum AeronSystemCounterType {
    /// Running total of bytes sent for data over UDP, excluding IP headers.
    BytesSent,
    /// Running total of bytes received for data over UDP, excluding IP headers.
    BytesReceived,
    /// Failed offers to the receiver proxy suggesting back-pressure.
    ReceiverProxyFails,
    /// Failed offers to the sender proxy suggesting back-pressure.
    SenderProxyFails,
    /// Failed offers to the driver conductor proxy suggesting back-pressure.
    ConductorProxyFails,
    /// Count of NAKs sent back to senders requesting re-transmits.
    NakMessagesSent,
    /// Count of NAKs received from receivers requesting re-transmits.
    NakMessagesReceived,
    /// Count of status messages sent back to senders for flow control.
    StatusMessagesSent,
    /// Count of status messages received from receivers for flow control.
    StatusMessagesReceived,
    /// Count of heartbeat data frames sent to indicate liveness in the absence of data to send.
    HeartbeatsSent,
    /// Count of heartbeat data frames received to indicate liveness in the absence of data to send.
    HeartbeatsReceived,
    /// Count of data packets re-transmitted as a result of NAKs.
    RetransmitsSent,
    /// Count of packets received which under-run the current flow control window for images.
    FlowControlUnderRuns,
    /// Count of packets received which over-run the current flow control window for images.
    FlowControlOverRuns,
    /// Count of invalid packets received.
    InvalidPackets,
    /// Count of errors observed by the driver and an indication to read the distinct error log.
    Errors,
    /// Count of socket send operations which resulted in less than the packet length being sent.
    ShortSends,
    /// Count of attempts to free log buffers no longer required by the driver that are still held by clients.
    FreeFails,
    /// Count of the times a sender has entered the state of being back-pressured when it could have sent faster.
    SenderFlowControlLimits,
    /// Count of the times a publication has been unblocked after a client failed to complete an offer within a timeout.
    UnblockedPublications,
    /// Count of the times a command has been unblocked after a client failed to complete an offer within a timeout.
    UnblockedCommands,
    /// Count of the times the channel endpoint detected a possible TTL asymmetry between its config and a new connection.
    PossibleTtlAsymmetry,
    /// Current status of the ControllableIdleStrategy if configured.
    ControllableIdleStrategy,
    /// Count of the times a loss gap has been filled when NAKs have been disabled.
    LossGapFills,
    /// Count of the Aeron clients that have timed out without a graceful close.
    ClientTimeouts,
    /// Count of the times a connection endpoint has been re-resolved resulting in a change.
    ResolutionChanges,
    /// The maximum time spent by the conductor between work cycles.
    ConductorMaxCycleTime,
    /// Count of the number of times the cycle time threshold has been exceeded by the conductor in its work cycle.
    ConductorCycleTimeThresholdExceeded,
    /// The maximum time spent by the sender between work cycles.
    SenderMaxCycleTime,
    /// Count of the number of times the cycle time threshold has been exceeded by the sender in its work cycle.
    SenderCycleTimeThresholdExceeded,
    /// The maximum time spent by the receiver between work cycles.
    ReceiverMaxCycleTime,
    /// Count of the number of times the cycle time threshold has been exceeded by the receiver in its work cycle.
    ReceiverCycleTimeThresholdExceeded,
    /// The maximum time spent by the NameResolver in one of its operations.
    NameResolverMaxTime,
    /// Count of the number of times the time threshold has been exceeded by the NameResolver.
    NameResolverTimeThresholdExceeded,
    /// The version of the media driver.
    AeronVersion,
    /// The total number of bytes currently mapped in log buffers, the CnC file, and the loss report.
    BytesCurrentlyMapped,
    /// A minimum bound on the number of bytes re-transmitted as a result of NAKs.
    RetransmittedBytes,
    /// A count of the number of times that the retransmit pool has been overflowed.
    RetransmitOverflow,
    /// A count of the number of error frames received by this driver.
    ErrorFramesReceived,
    /// A count of the number of error frames sent by this driver.
    ErrorFramesSent,
    /// The end of the list; no counter of its own.
    DummyLast,
}

impl AeronSystemCounterType {
    /// The type id of the kind.
    pub open spec fn spec_id(self) -> int {
        match self {
            AeronSystemCounterType::BytesSent => 0,
            AeronSystemCounterType::BytesReceived => 1,
            AeronSystemCounterType::ReceiverProxyFails => 2,
            AeronSystemCounterType::SenderProxyFails => 3,
            AeronSystemCounterType::ConductorProxyFails => 4,
            AeronSystemCounterType::NakMessagesSent => 5,
            AeronSystemCounterType::NakMessagesReceived => 6,
            AeronSystemCounterType::StatusMessagesSent => 7,
            AeronSystemCounterType::StatusMessagesReceived => 8,
            AeronSystemCounterType::HeartbeatsSent => 9,
            AeronSystemCounterType::HeartbeatsReceived => 10,
            AeronSystemCounterType::RetransmitsSent => 11,
            AeronSystemCounterType::FlowControlUnderRuns => 12,
            AeronSystemCounterType::FlowControlOverRuns => 13,
            AeronSystemCounterType::InvalidPackets => 14,
            AeronSystemCounterType::Errors => 15,
            AeronSystemCounterType::ShortSends => 16,
            AeronSystemCounterType::FreeFails => 17,
            AeronSystemCounterType::SenderFlowControlLimits => 18,
            AeronSystemCounterType::UnblockedPublications => 19,
            AeronSystemCounterType::UnblockedCommands => 20,
            AeronSystemCounterType::PossibleTtlAsymmetry => 21,
            AeronSystemCounterType::ControllableIdleStrategy => 22,
            AeronSystemCounterType::LossGapFills => 23,
            AeronSystemCounterType::ClientTimeouts => 24,
            AeronSystemCounterType::ResolutionChanges => 25,
            AeronSystemCounterType::ConductorMaxCycleTime => 26,
            AeronSystemCounterType::ConductorCycleTimeThresholdExceeded => 27,
            AeronSystemCounterType::SenderMaxCycleTime => 28,
            AeronSystemCounterType::SenderCycleTimeThresholdExceeded => 29,
            AeronSystemCounterType::ReceiverMaxCycleTime => 30,
            AeronSystemCounterType::ReceiverCycleTimeThresholdExceeded => 31,
            AeronSystemCounterType::NameResolverMaxTime => 32,
            AeronSystemCounterType::NameResolverTimeThresholdExceeded => 33,
            AeronSystemCounterType::AeronVersion => 34,
            AeronSystemCounterType::BytesCurrentlyMapped => 35,
            AeronSystemCounterType::RetransmittedBytes => 36,
            AeronSystemCounterType::RetransmitOverflow => 37,
            AeronSystemCounterType::ErrorFramesReceived => 38,
            AeronSystemCounterType::ErrorFramesSent => 39,
            AeronSystemCounterType::DummyLast => 40,
        }
    }

    /// The type id of the kind.
    pub fn id(&self) -> (r: i32)
        ensures
            r == self.spec_id(),
            0 <= r <= 40,
    {
        match self {
            AeronSystemCounterType::BytesSent => 0,
            AeronSystemCounterType::BytesReceived => 1,
            AeronSystemCounterType::ReceiverProxyFails => 2,
            AeronSystemCounterType::SenderProxyFails => 3,
            AeronSystemCounterType::ConductorProxyFails => 4,
            AeronSystemCounterType::NakMessagesSent => 5,
            AeronSystemCounterType::NakMessagesReceived => 6,
            AeronSystemCounterType::StatusMessagesSent => 7,
            AeronSystemCounterType::StatusMessagesReceived => 8,
            AeronSystemCounterType::HeartbeatsSent => 9,
            AeronSystemCounterType::HeartbeatsReceived => 10,
            AeronSystemCounterType::RetransmitsSent => 11,
            AeronSystemCounterType::FlowControlUnderRuns => 12,
            AeronSystemCounterType::FlowControlOverRuns => 13,
            AeronSystemCounterType::InvalidPackets => 14,
            AeronSystemCounterType::Errors => 15,
            AeronSystemCounterType::ShortSends => 16,
            AeronSystemCounterType::FreeFails => 17,
            AeronSystemCounterType::SenderFlowControlLimits => 18,
            AeronSystemCounterType::UnblockedPublications => 19,
            AeronSystemCounterType::UnblockedCommands => 20,
            AeronSystemCounterType::PossibleTtlAsymmetry => 21,
            AeronSystemCounterType::ControllableIdleStrategy => 22,
            AeronSystemCounterType::LossGapFills => 23,
            AeronSystemCounterType::ClientTimeouts => 24,
            AeronSystemCounterType::ResolutionChanges => 25,
            AeronSystemCounterType::ConductorMaxCycleTime => 26,
            AeronSystemCounterType::ConductorCycleTimeThresholdExceeded => 27,
            AeronSystemCounterType::SenderMaxCycleTime => 28,
            AeronSystemCounterType::SenderCycleTimeThresholdExceeded => 29,
            AeronSystemCounterType::ReceiverMaxCycleTime => 30,
            AeronSystemCounterType::ReceiverCycleTimeThresholdExceeded => 31,
            AeronSystemCounterType::NameResolverMaxTime => 32,
            AeronSystemCounterType::NameResolverTimeThresholdExceeded => 33,
            AeronSystemCounterType::AeronVersion => 34,
            AeronSystemCounterType::BytesCurrentlyMapped => 35,
            AeronSystemCounterType::RetransmittedBytes => 36,
            AeronSystemCounterType::RetransmitOverflow => 37,
            AeronSystemCounterType::ErrorFramesReceived => 38,
            AeronSystemCounterType::ErrorFramesSent => 39,
            AeronSystemCounterType::DummyLast => 40,
        }
    }

    /// The kind with the type id `value`. A negative value is a status code
    /// and comes back as the error that carries it; a value above the last
    /// kind is the error `-1`.
    pub fn try_from(value: i32) -> (r: Result<Self, AeronCError>)
        ensures
            r is Ok <==> 0 <= value <= 40,
            r matches Ok(kind) ==> kind.spec_id() == value,
            r matches Err(e) ==> e.code == (if value < 0 {
                value
            } else {
                -1i32
            }),
    {
        if value < 0 {
            return Err(AeronCError::from_code(value));
        }
        match value {
            0 => Ok(AeronSystemCounterType::BytesSent),
            1 => Ok(AeronSystemCounterType::BytesReceived),
            2 => Ok(AeronSystemCounterType::ReceiverProxyFails),
            3 => Ok(AeronSystemCounterType::SenderProxyFails),
            4 => Ok(AeronSystemCounterType::ConductorProxyFails),
            5 => Ok(AeronSystemCounterType::NakMessagesSent),
            6 => Ok(AeronSystemCounterType::NakMessagesReceived),
            7 => Ok(AeronSystemCounterType::StatusMessagesSent),
            8 => Ok(AeronSystemCounterType::StatusMessagesReceived),
            9 => Ok(AeronSystemCounterType::HeartbeatsSent),
            10 => Ok(AeronSystemCounterType::HeartbeatsReceived),
            11 => Ok(AeronSystemCounterType::RetransmitsSent),
            12 => Ok(AeronSystemCounterType::FlowControlUnderRuns),
            13 => Ok(AeronSystemCounterType::FlowControlOverRuns),
            14 => Ok(AeronSystemCounterType::InvalidPackets),
            15 => Ok(AeronSystemCounterType::Errors),
            16 => Ok(AeronSystemCounterType::ShortSends),
            17 => Ok(AeronSystemCounterType::FreeFails),
            18 => Ok(AeronSystemCounterType::SenderFlowControlLimits),
            19 => Ok(AeronSystemCounterType::UnblockedPublications),
            20 => Ok(AeronSystemCounterType::UnblockedCommands),
            21 => Ok(AeronSystemCounterType::PossibleTtlAsymmetry),
            22 => Ok(AeronSystemCounterType::ControllableIdleStrategy),
            23 => Ok(AeronSystemCounterType::LossGapFills),
            24 => Ok(AeronSystemCounterType::ClientTimeouts),
            25 => Ok(AeronSystemCounterType::ResolutionChanges),
            26 => Ok(AeronSystemCounterType::ConductorMaxCycleTime),
            27 => Ok(AeronSystemCounterType::ConductorCycleTimeThresholdExceeded),
            28 => Ok(AeronSystemCounterType::SenderMaxCycleTime),
            29 => Ok(AeronSystemCounterType::SenderCycleTimeThresholdExceeded),
            30 => Ok(AeronSystemCounterType::ReceiverMaxCycleTime),
            31 => Ok(AeronSystemCounterType::ReceiverCycleTimeThresholdExceeded),
            32 => Ok(AeronSystemCounterType::NameResolverMaxTime),
            33 => Ok(AeronSystemCounterType::NameResolverTimeThresholdExceeded),
            34 => Ok(AeronSystemCounterType::AeronVersion),
            35 => Ok(AeronSystemCounterType::BytesCurrentlyMapped),
            36 => Ok(AeronSystemCounterType::RetransmittedBytes),
            37 => Ok(AeronSystemCounterType::RetransmitOverflow),
            38 => Ok(AeronSystemCounterType::ErrorFramesReceived),
            39 => Ok(AeronSystemCounterType::ErrorFramesSent),
            40 => Ok(AeronSystemCounterType::DummyLast),
            _ => Err(AeronCError::from_code(-1)),
        }
    }
}

/// Two kinds with the same type id are the same kind.
pub proof fn lemma_counter_id_is_injective(a: AeronSystemCounterType, b: AeronSystemCounterType)
    requires
        a.spec_id() == b.spec_id(),
    ensures
        a == b,
{
}

/// The handler that puts an error of the foreign library into words.
pub struct AeronErrorLogger;

impl AeronErrorLogger {
    /// What is written for an error: its code and its message.
    pub open spec fn spec_message(error_code: i32, msg: Seq<char>) -> Seq<char> {
        "aeron error "@ + signed_decimal(error_code as int) + ": "@ + msg
    }

    /// The line for the error `error_code` with the message `msg`.
    pub fn message(&self, error_code: i32, msg: &str) -> (r: String)
        ensures
            r@ == Self::spec_message(error_code, msg@),
    {
        let mut r = String::from_str("aeron error ");
        let digits = int_to_text(error_code as i64);
        r.append(digits.as_str());
        r.append(": ");
        r.append(msg);
        r
    }
}

/// Where the first zero byte stands in `bytes`, or the length of `bytes`
/// where none is zero.
pub open spec fn first_zero(bytes: Seq<u8>) -> int
    decreases bytes.len(),
{
    if bytes.len() == 0 || bytes[0] == 0 {
        0
    } else {
        1 + first_zero(bytes.skip(1))
    }
}

/// `first_zero` points at the first zero byte, or behind the end.
pub proof fn lemma_first_zero(bytes: Seq<u8>)
    ensures
        0 <= first_zero(bytes) <= bytes.len(),
        first_zero(bytes) < bytes.len() ==> bytes[first_zero(bytes)] == 0,
        forall|j: int| 0 <= j < first_zero(bytes) ==> #[trigger] bytes[j] != 0,
    decreases bytes.len(),
{
    if bytes.len() > 0 && bytes[0] != 0 {
        let t = bytes.skip(1);
        lemma_first_zero(t);
        assert forall|j: int| 0 <= j < first_zero(bytes) implies #[trigger] bytes[j] != 0 by {
            if j > 0 {
                assert(t[j - 1] == bytes[j]);
            }
        }
    }
}

/// The bytes of a string that ends at its first zero byte.
pub open spec fn c_string(bytes: Seq<u8>) -> Seq<u8> {
    bytes.take(first_zero(bytes))
}

/// Each byte as the character with its number.
pub open spec fn latin(bytes: Seq<u8>) -> Seq<char> {
    Seq::new(bytes.len(), |i: int| bytes[i] as char)
}

fn zero_at(bytes: &[u8]) -> (n: usize)
    ensures
        n == first_zero(bytes@),
        n <= bytes@.len(),
{
    let mut n: usize = 0;
    while n < bytes.len() && bytes[n] != 0
        invariant
            n <= bytes@.len(),
            forall|j: int| 0 <= j < n ==> #[trigger] bytes@[j] != 0,
        decreases bytes@.len() - n,
    {
        n += 1;
    }
    proof {
        lemma_first_zero(bytes@);
    }
    n
}

/// The label of a counter, from what the foreign call left: `status` is
/// what it returned and `buffer` what it filled. A negative status is the
/// error; else the label is what stands in the buffer before the first zero
/// byte, each byte a character.
pub fn get_counter_label(status: i32, buffer: &[u8]) -> (r: Result<String, AeronCError>)
    ensures
        r is Ok <==> status >= 0,
        r matches Ok(label) ==> label@ == latin(c_string(buffer@)),
        r matches Err(e) ==> e.code == status,
{
    if status < 0 {
        return Err(AeronCError::from_code(status));
    }
    let n = zero_at(buffer);
    let mut chars: Vec<char> = Vec::new();
    let mut i: usize = 0;
    while i < n
        invariant
            i <= n <= buffer@.len(),
            chars@.len() == i,
            forall|j: int| 0 <= j < i ==> #[trigger] chars@[j] == buffer@[j] as char,
        decreases n - i,
    {
        chars.push(buffer[i] as char);
        i += 1;
    }
    assert(chars@ =~= latin(c_string(buffer@)));
    Ok(text_of(&chars))
}

/// The key of a counter, from what the foreign call left: a negative status
/// is the error; else the key is what stands in `bytes` before the first
/// zero byte.
pub fn get_counter_key(status: i32, bytes: &[u8]) -> (r: Result<Vec<u8>, AeronCError>)
    ensures
        r is Ok <==> status >= 0,
        r matches Ok(key) ==> key@ == c_string(bytes@),
        r matches Err(e) ==> e.code == status,
{
    if status < 0 {
        return Err(AeronCError::from_code(status));
    }
    let n = zero_at(bytes);
    let mut key: Vec<u8> = Vec::new();
    let mut i: usize = 0;
    while i < n
        invariant
            i <= n <= bytes@.len(),
            key@ == bytes@.take(i as int),
        decreases n - i,
    {
        key.push(bytes[i]);
        assert(bytes@.take(i + 1) =~= bytes@.take(i as int).push(bytes@[i as int]));
        i += 1;
    }
    Ok(key)
}

/// The time of the last heartbeat, from what the foreign call returned: a
/// time is not negative; a negative number is a status code and comes back
/// as the error.
pub fn get_to_driver_heartbeat_ms(timestamp: i64) -> (r: Result<i64, AeronCError>)
    ensures
        r is Ok <==> timestamp >= 0,
        r matches Ok(t) ==> t == timestamp,
        r matches Err(e) ==> (i32::MIN <= timestamp ==> e.code == timestamp) && (timestamp
            < i32::MIN ==> e.code == i32::MIN),
{
    if timestamp >= 0 {
        Ok(timestamp)
    } else if timestamp < -2147483648 {
        Err(AeronCError::from_code(i32::MIN))
    } else {
        Err(AeronCError::from_code(timestamp as i32))
    }
}

/// Whether a publication can take messages: it is connected and its limit
/// is not zero.
pub fn is_ready(is_connected: bool, position_limit: i64) -> (r: bool)
    ensures
        r == (is_connected && position_limit != 0),
{
    is_connected && position_limit != 0
}

} // verus!
