//! What holds of texts and settings, and of the messages between the ranks and the hub.

use vstd::prelude::*;

use crate::baggage;
use crate::checksum::{self, G4ChecksumRecord};
use crate::protocol::{self, SlotKeyView};
use crate::slot_config::{SlotConfig, SlotEnv};
use crate::table::TableKey;
use crate::text;
use crate::tier;
use crate::zmq_hub;
use crate::zmq_transport::{self, DealerStop, DealerView};

verus! {

/// A digit is written by its own character.
pub proof fn digits_are_written_in_order(d: nat)
    requires
        d < 16,
    ensures
        d < 10 ==> text::digit_char(d) as nat == '0' as nat + d,
        d >= 10 ==> text::digit_char(d) as nat == 'a' as nat + (d - 10),
{
}

/// Another digit behind a number multiplies it by the base and adds the digit.
pub proof fn numbers_grow_by_digits(n: nat, d: nat, width: nat)
    ensures
        n > 0 && d < 10 ==> text::decimal(n * 10 + d) == text::decimal(n).push(
            text::digit_char(d),
        ),
        n > 0 && d < 16 ==> text::hex(n * 16 + d) == text::hex(n).push(text::digit_char(d)),
        d < 16 ==> text::hex_digits(n * 16 + d, width + 1) == text::hex_digits(n, width).push(
            text::digit_char(d),
        ),
        d < 10 ==> text::decimal(d) == seq![text::digit_char(d)],
        d < 16 ==> text::hex(d) == seq![text::digit_char(d)],
{
    if d < 10 {
        assert((n * 10 + d) / 10 == n && (n * 10 + d) % 10 == d);
    }
    if d < 16 {
        assert((n * 16 + d) / 16 == n && (n * 16 + d) % 16 == d);
    }
}

/// A number that is written down and read again is the same number, with or without a plus sign.
pub proof fn written_numbers_are_read_back(n: u64)
    ensures
        text::parsed_number(text::decimal(n as nat)) == Some(n),
        text::parsed_number(seq!['+'] + text::decimal(n as nat)) == Some(n),
{
    let digits = text::decimal(n as nat);
    text::decimal_holds_digits(n as nat);
    decimal_denotes(n as nat);
    assert(digits[0] != '+');
    let signed = seq!['+'] + digits;
    assert(signed.subrange(1, signed.len() as int) =~= digits);
}

proof fn decimal_denotes(n: nat)
    ensures
        text::decimal(n).len() > 0,
        text::digits_value(text::decimal(n)) == n,
    decreases n,
{
    let digits = text::decimal(n);
    if n < 10 {
        assert(digits.drop_last() =~= Seq::<char>::empty());
        assert(text::digits_value(digits.drop_last()) == 0);
    } else {
        decimal_denotes(n / 10);
        assert(digits.drop_last() =~= text::decimal(n / 10));
    }
}

/// What holds anything but digits, behind an optional plus sign, is no number; neither is what
/// holds none.
pub proof fn only_digits_are_numbers(value: Seq<char>, i: int)
    ensures
        value.len() == 0 ==> text::parsed_number(value) is None,
        0 < i < value.len() && !('0' <= value[i] <= '9') ==> text::parsed_number(value) is None,
        value.len() > 0 && value[0] != '+' && !('0' <= value[0] <= '9') ==> text::parsed_number(
            value,
        ) is None,
        value.len() == 1 && value[0] == '+' ==> text::parsed_number(value) is None,
{
    let digits = text::number_digits(value);
    if 0 < i < value.len() && !('0' <= value[i] <= '9') {
        if value[0] == '+' {
            assert(digits[i - 1] == value[i]);
        } else {
            assert(digits[i] == value[i]);
        }
    }
    if value.len() > 0 && value[0] != '+' && !('0' <= value[0] <= '9') {
        assert(digits[0] == value[0]);
    }
}

/// Every occurrence in front is replaced, and what is no occurrence stays.
pub proof fn occurrences_are_replaced(
    pattern: Seq<char>,
    with: Seq<char>,
    rest: Seq<char>,
    value: Seq<char>,
)
    requires
        pattern.len() > 0,
    ensures
        text::replace_all(pattern + rest, pattern, with) == with + text::replace_all(
            rest,
            pattern,
            with,
        ),
        (forall|i: int|
            0 <= i <= value.len() - pattern.len() ==> #[trigger] value.subrange(
                i,
                i + pattern.len(),
            ) != pattern) ==> text::replace_all(value, pattern, with) == value,
{
    let all = pattern + rest;
    assert(all.subrange(0, pattern.len() as int) =~= pattern);
    assert(all.subrange(pattern.len() as int, all.len() as int) =~= rest);
    if forall|i: int|
        0 <= i <= value.len() - pattern.len() ==> #[trigger] value.subrange(i, i + pattern.len())
            != pattern {
        nothing_to_replace(value, pattern, with);
    }
}

proof fn nothing_to_replace(value: Seq<char>, pattern: Seq<char>, with: Seq<char>)
    requires
        pattern.len() > 0,
        forall|i: int|
            0 <= i <= value.len() - pattern.len() ==> #[trigger] value.subrange(
                i,
                i + pattern.len(),
            ) != pattern,
    ensures
        text::replace_all(value, pattern, with) == value,
    decreases value.len(),
{
    if value.len() >= pattern.len() {
        let tail = value.subrange(1, value.len() as int);
        assert(value.subrange(0int, 0int + pattern.len()) != pattern);
        assert forall|i: int| 0 <= i <= tail.len() - pattern.len() implies #[trigger] tail.subrange(
            i,
            i + pattern.len(),
        ) != pattern by {
            assert(tail.subrange(i, i + pattern.len()) =~= value.subrange(
                i + 1,
                i + 1 + pattern.len(),
            ));
        }
        nothing_to_replace(tail, pattern, with);
        assert(seq![value[0]] + tail =~= value);
    }
}

/// A switch is on with `1` or with `true` in upper or lower case, and with nothing else.
pub proof fn switches_are_on_by_one_or_true(value: Seq<char>)
    ensures
        !text::switches_on(None),
        text::switches_on(Some(value)) <==> value == "1"@ || text::ascii_lowercase(value)
            == "true"@,
{
    reveal_strlit("true");
    let wanted = "true"@;
    let lower = text::ascii_lowercase(value);
    assert(wanted[0] == 't' && wanted[1] == 'r' && wanted[2] == 'u' && wanted[3] == 'e');
    assert forall|i: int| 0 <= i < 4 implies text::ascii_lower(wanted[i]) == #[trigger] wanted[i] by {
        assert(i == 0 || i == 1 || i == 2 || i == 3);
    }
    if text::same_ignoring_case(value, wanted) {
        assert forall|i: int| 0 <= i < value.len() implies lower[i] == wanted[i] by {
            assert(text::ascii_lower(value[i]) == text::ascii_lower(wanted[i]));
        }
        assert(lower =~= wanted);
    }
    if lower == wanted {
        assert forall|i: int| 0 <= i < value.len() implies text::ascii_lower(#[trigger] value[i])
            == text::ascii_lower(wanted[i]) by {
            assert(lower[i] == text::ascii_lower(value[i]));
        }
        assert(lower.len() == value.len());
    }
}

/// Lower case changes the letters from `A` to `Z` and no other character.
pub proof fn lower_case_changes_capitals(c: char)
    ensures
        'A' <= c <= 'Z' ==> text::ascii_lower(c) as u32 - 'a' as u32 == c as u32 - 'A' as u32,
        !('A' <= c <= 'Z') ==> text::ascii_lower(c) == c,
{
}

/// Trimming takes white space off both ends, all of it and nothing else.
pub proof fn trimming_takes_the_space_around(value: Seq<char>)
    ensures
        exists|from: int, to: int|
            #![trigger value.subrange(from, to)]
            {
                &&& 0 <= from <= to <= value.len()
                &&& baggage::trim(value) == value.subrange(from, to)
                &&& forall|i: int|
                    0 <= i < from || (to <= i < value.len()) ==> baggage::is_space(
                        #[trigger] value[i],
                    )
                &&& from < to ==> !baggage::is_space(value[from]) && !baggage::is_space(
                    value[to - 1],
                )
            },
{
    let from = trimmed_start(value);
    let tail = value.subrange(from, value.len() as int);
    let n = trimmed_end(tail);
    let to = from + n;
    assert(tail.subrange(0, n) =~= value.subrange(from, to));
    assert forall|i: int| 0 <= i < from || (to <= i < value.len()) implies baggage::is_space(
        #[trigger] value[i],
    ) by {
        if i >= to {
            assert(tail[i - from] == value[i]);
        }
    }
    if from < to {
        assert(tail[0] == value[from]);
        assert(tail[n - 1] == value[to - 1]);
    }
}

proof fn trimmed_start(value: Seq<char>) -> (from: int)
    ensures
        0 <= from <= value.len(),
        baggage::trim_start(value) == value.subrange(from, value.len() as int),
        forall|i: int| 0 <= i < from ==> baggage::is_space(#[trigger] value[i]),
        from < value.len() ==> !baggage::is_space(value[from]),
    decreases value.len(),
{
    if value.len() > 0 && baggage::is_space(value[0]) {
        let tail = value.subrange(1, value.len() as int);
        let n = trimmed_start(tail);
        assert(tail.subrange(n, tail.len() as int) =~= value.subrange(n + 1, value.len() as int));
        assert forall|i: int| 0 <= i < n + 1 implies baggage::is_space(#[trigger] value[i]) by {
            if i > 0 {
                assert(tail[i - 1] == value[i]);
            }
        }
        n + 1
    } else {
        assert(value.subrange(0, value.len() as int) =~= value);
        0
    }
}

proof fn trimmed_end(value: Seq<char>) -> (to: int)
    ensures
        0 <= to <= value.len(),
        baggage::trim_end(value) == value.subrange(0, to),
        forall|i: int| to <= i < value.len() ==> baggage::is_space(#[trigger] value[i]),
        to > 0 ==> !baggage::is_space(value[to - 1]),
    decreases value.len(),
{
    if value.len() > 0 && baggage::is_space(value.last()) {
        let head = value.drop_last();
        let to = trimmed_end(head);
        assert(head.subrange(0, to) =~= value.subrange(0, to));
        assert forall|i: int| to <= i < value.len() implies baggage::is_space(
            #[trigger] value[i],
        ) by {
            if i < head.len() {
                assert(head[i] == value[i]);
            }
        }
        to
    } else {
        assert(value.subrange(0, value.len() as int) =~= value);
        value.len() as int
    }
}

/// A character is found where it stands for the first time.
pub proof fn characters_are_found_where_they_are_first(value: Seq<char>, c: char, i: int)
    ensures
        0 <= baggage::first_of(value, c) <= value.len(),
        baggage::first_of(value, c) < value.len() ==> value[baggage::first_of(value, c)] == c,
        0 <= i < baggage::first_of(value, c) ==> value[i] != c,
    decreases value.len(),
{
    if value.len() > 0 && value[0] != c {
        let tail = value.subrange(1, value.len() as int);
        characters_are_found_where_they_are_first(tail, c, i - 1);
        if 0 < i < baggage::first_of(value, c) {
            assert(tail[i - 1] == value[i]);
        }
    }
}

proof fn found_behind(head: Seq<char>, c: char, tail: Seq<char>)
    requires
        !head.contains(c),
    ensures
        baggage::first_of(head + seq![c] + tail, c) == head.len(),
        baggage::first_of(head, c) == head.len(),
{
    let all = head + seq![c] + tail;
    let at = baggage::first_of(all, c);
    characters_are_found_where_they_are_first(all, c, head.len() as int);
    assert(all[head.len() as int] == c);
    if at < head.len() {
        assert(head[at] == c);
    }
    let alone = baggage::first_of(head, c);
    characters_are_found_where_they_are_first(head, c, 0);
    if alone < head.len() {
        assert(head[alone] == c);
    }
}

/// An item gives its value, without the white space around it, to whoever asks for its key; an
/// item without an equals sign gives none.
pub proof fn items_give_their_value(key: Seq<char>, value: Seq<char>, wanted: Seq<char>)
    requires
        !key.contains('='),
    ensures
        baggage::item_value(key + seq!['='] + value, wanted) == if baggage::trim(key) == wanted {
            Some(baggage::trim(value))
        } else {
            None
        },
        baggage::item_value(key, wanted) is None,
{
    let item = key + seq!['='] + value;
    found_behind(key, '=', value);
    assert(item.subrange(0, key.len() as int) =~= key);
    assert(item.subrange(key.len() as int + 1, item.len() as int) =~= value);
}

/// The first item with the key counts: an item that has a value for the key goes before all that
/// follow, and one that has none is passed over.
pub proof fn first_items_count(item: Seq<char>, rest: Seq<char>, key: Seq<char>)
    requires
        !item.contains(','),
    ensures
        baggage::value_of(item + seq![','] + rest, key) == match baggage::item_value(item, key) {
            Some(value) => Some(value),
            None => baggage::value_of(rest, key),
        },
        baggage::value_of(item, key) == baggage::item_value(item, key),
        baggage::first_item(item + seq![','] + rest) == baggage::trim(item),
        baggage::first_item(item) == baggage::trim(item),
{
    let all = item + seq![','] + rest;
    found_behind(item, ',', rest);
    assert(all.subrange(0, item.len() as int) =~= item);
    assert(all.subrange(item.len() as int + 1, all.len() as int) =~= rest);
    assert(item.subrange(0, item.len() as int) =~= item);
}

/// Settings that hold numbers count where nothing was read before; settings that hold none leave
/// what was there.
pub proof fn settings_are_read_as_numbers(config: SlotConfig, env: SlotEnv, n: u64)
    requires
        !config.initialized,
        n <= usize::MAX,
    ensures
        ({
            let read = config.read(env);
            let digits = text::decimal(n as nat);
            &&& env.g4_transfer_timeout_secs is Some && env.g4_transfer_timeout_secs->0@ == digits
                ==> read.g4_transfer_timeout_secs == n
            &&& env.flush_batch_size is Some && env.flush_batch_size->0@ == digits
                ==> read.flush_batch_size == n
            &&& config.g4_min_candidate_blocks is None && env.g4_min_candidate_blocks is Some
                && env.g4_min_candidate_blocks->0@ == digits ==> config.min_candidate_blocks(env)
                == n
            &&& env.g4_transfer_timeout_secs is None ==> read.g4_transfer_timeout_secs
                == config.g4_transfer_timeout_secs
            &&& env.flush_batch_size is None ==> read.flush_batch_size == config.flush_batch_size
            &&& config.g4_min_candidate_blocks is None && env.g4_min_candidate_blocks is None
                ==> config.min_candidate_blocks(env) == 8
            &&& config.g4_min_candidate_blocks is Some ==> config.min_candidate_blocks(env)
                == config.g4_min_candidate_blocks->0
            &&& read.g4_min_candidate_blocks == config.g4_min_candidate_blocks
            &&& read.initialized
        }),
        SlotConfig::unread().g4_transfer_timeout_secs == 30,
        SlotConfig::unread().flush_batch_size == 512,
        SlotConfig::unread().g4_min_candidate_blocks is None,
        !SlotConfig::unread().initialized,
{
    written_numbers_are_read_back(n);
}

/// The blocks of a tier hold its tokens, and one block fewer would not.
pub proof fn blocks_suffice_for_the_tokens(tokens: usize, block_size: usize)
    requires
        block_size > 0,
    ensures
        tier::blocks_holding(tokens, block_size) * block_size >= tokens,
        tokens > 0 ==> (tier::blocks_holding(tokens, block_size) - 1) * block_size < tokens,
        tokens == 0 ==> tier::blocks_holding(tokens, block_size) == 0,
{
    let b = block_size as int;
    let q = tier::blocks_holding(tokens, block_size);
    let sum = tokens + b - 1;
    vstd::arithmetic::div_mod::lemma_fundamental_div_mod(sum, b);
    assert(q * b == b * q && (q - 1) * b == b * q - b) by (nonlinear_arith);
    vstd::arithmetic::div_mod::lemma_mod_bound(sum, b);
    if tokens == 0 {
        vstd::arithmetic::div_mod::lemma_basic_div(sum, b);
    }
}

/// Hashes are noted with their own positions.
pub proof fn hashes_are_noted_with_their_positions(hashes: Seq<u64>, i: int)
    requires
        0 <= i < hashes.len() <= u32::MAX,
    ensures
        tier::positioned(hashes).len() == hashes.len(),
        tier::positioned(hashes)[i].0 == hashes[i],
        tier::positioned(hashes)[i].1 == i,
{
}

/// Different slots are printed differently.
pub proof fn slots_are_printed_apart(a: SlotKeyView, b: SlotKeyView)
    requires
        protocol::slot_key_text(a) == protocol::slot_key_text(b),
    ensures
        a == b,
{
    let (x, y) = (text::decimal(a.1 as nat), text::decimal(b.1 as nat));
    let all = protocol::slot_key_text(a);
    text::decimal_holds_digits(a.1 as nat);
    text::decimal_holds_digits(b.1 as nat);
    let (m, n) = (a.0.len() as int, b.0.len() as int);
    let first = a.0 + seq![':'] + x;
    let second = b.0 + seq![':'] + y;
    assert(all == first && all == second);
    assert(first[m] == ':' && second[n] == ':');
    assert(first.len() == m + 1 + x.len() && second.len() == n + 1 + y.len());
    if m < n {
        assert(first[n] == x[n - m - 1]);
        assert('0' <= x[n - m - 1] <= '9');
    } else if n < m {
        assert(second[m] == y[m - n - 1]);
        assert('0' <= y[m - n - 1] <= '9');
    }
    assert(first.subrange(0, m) =~= a.0);
    assert(second.subrange(0, n) =~= b.0);
    assert(first.subrange(m + 1, first.len() as int) =~= x);
    assert(second.subrange(n + 1, second.len() as int) =~= y);
    text::decimal_is_injective(a.1 as nat, b.1 as nat);
}

/// A block passes exactly where its checksum is the one on record.
pub proof fn checksums_decide(block: Vec<u8>, record: G4ChecksumRecord)
    ensures
        checksum::is_intact(block, record) <==> record.checksum@ == checksum::blake3_hex(block@),
{
}

/// An address names its host and ends with the digits of its port.
pub proof fn addresses_name_host_and_port(host: Seq<char>, port: u16)
    ensures
        ({
            let address = zmq_transport::tcp_address(host, port);
            &&& address.subrange(0, 6) == "tcp://"@
            &&& address.subrange(6, 6 + host.len() as int) == host
            &&& address[6 + host.len() as int] == ':'
            &&& text::parsed_number(address.subrange(7 + host.len() as int, address.len() as int)) == Some(
                port as u64,
            )
        }),
{
    reveal_strlit("tcp://");
    reveal_strlit(":");
    let address = zmq_transport::tcp_address(host, port);
    assert(address.subrange(0, 6) =~= "tcp://"@);
    assert(address.subrange(6, 6 + host.len() as int) =~= host);
    assert(address.subrange(7 + host.len() as int, address.len() as int) =~= text::decimal(port as nat));
    written_numbers_are_read_back(port as u64);
}

/// A response settles its own request and no other, and a response to no request settles none.
pub proof fn responses_settle_their_own_request(
    dealer: DealerView,
    request_id: u32,
    other: u32,
    payload: Seq<u8>,
    frames: Seq<Vec<u8>>,
)
    requires
        frames.len() > 0,
        frames[0]@ == zmq_transport::framed(request_id, payload),
    ensures
        !dealer.answered(frames).in_flight.dom().contains(request_id),
        other != request_id ==> dealer.answered(frames).in_flight.dom().contains(other)
            == dealer.in_flight.dom().contains(other),
        other != request_id && dealer.in_flight.dom().contains(other) ==> dealer.answered(
            frames,
        ).in_flight[other] == dealer.in_flight[other],
        dealer.answered(frames).next_request_id == dealer.next_request_id,
        dealer.addressee(frames) is Some <==> dealer.in_flight.dom().contains(request_id),
        dealer.addressee(frames) is Some ==> (dealer.addressee(frames)->0).0
            == dealer.in_flight[request_id] && (dealer.addressee(frames)->0).1 == payload,
        dealer.addressee(Seq::empty()) is None,
{
    zmq_transport::framing_round_trips(request_id, payload);
}

/// When the task ends, every caller that waits is told, once for each of its requests, and why.
pub proof fn waiting_callers_are_told(
    replies: Seq<(u64, String)>,
    waiting: Map<u32, u64>,
    message: Seq<char>,
    request_id: u32,
)
    requires
        zmq_transport::tells_all(replies, waiting, message),
    ensures
        replies.len() == waiting.dom().len(),
        waiting.dom().contains(request_id) ==> exists|i: int|
            0 <= i < replies.len() && (#[trigger] replies[i]).0 == waiting[request_id]
                && replies[i].1@ == message,
        forall|i: int| 0 <= i < replies.len() ==> (#[trigger] replies[i]).1@ == message,
{
    let ids = choose|ids: Seq<u32>| #[trigger]
        ids.no_duplicates() && ids.to_set() == waiting.dom() && replies.len() == ids.len()
            && forall|i: int|
            0 <= i < replies.len() ==> (#[trigger] replies[i]).0 == waiting[ids[i]]
                && replies[i].1@ == message;
    ids.unique_seq_to_set();
    if waiting.dom().contains(request_id) {
        assert(ids.to_set().contains(request_id));
        let i = ids.index_of(request_id);
        assert(replies[i].0 == waiting[ids[i]]);
    }
}

/// Callers are told apart why the task ended, and of a failed socket what went wrong.
pub proof fn ends_of_the_task_are_told_apart(detail: String)
    ensures
        ({
            let failed = DealerStop::ReceiveError(detail).message_view();
            &&& failed.subrange(failed.len() - detail@.len(), failed.len() as int) == detail@
            &&& DealerStop::SocketClosed.message_view() != DealerStop::ShuttingDown.message_view()
        }),
{
    reveal_strlit("Socket closed");
    reveal_strlit("DEALER task shutting down");
    assert("Socket closed"@.len() != "DEALER task shutting down"@.len());
    let failed = DealerStop::ReceiveError(detail).message_view();
    assert(failed.subrange(failed.len() - detail@.len(), failed.len() as int) =~= detail@);
}

/// A key may be stored exactly where nothing is stored under it.
pub proof fn free_keys_are_granted<T, V>(keys: Seq<T>, stored: Map<T, V>, i: int)
    requires
        0 <= i < keys.len(),
    ensures
        zmq_hub::offload_statuses(keys, stored).len() == keys.len(),
        zmq_hub::offload_statuses(keys, stored)[i] is Granted <==> !stored.dom().contains(keys[i]),
        zmq_hub::offload_statuses(keys, stored)[i] is AlreadyStored <==> stored.dom().contains(
            keys[i],
        ),
{
}

/// Another key in a query adds what is stored under it, behind all else, or nothing.
pub proof fn queries_answer_key_by_key<T, V>(keys: Seq<T>, stored: Map<T, V>, key: T)
    ensures
        zmq_hub::stored_entries(Seq::empty(), stored).len() == 0,
        stored.dom().contains(key) ==> zmq_hub::stored_entries(keys.push(key), stored)
            == zmq_hub::stored_entries(keys, stored).push((key, stored[key])),
        !stored.dom().contains(key) ==> zmq_hub::stored_entries(keys.push(key), stored)
            == zmq_hub::stored_entries(keys, stored),
{
    assert(keys.push(key).drop_last() =~= keys);
}

/// A removal forgets the listed keys and no other, and counts the keys that it forgot.
pub proof fn removals_forget_the_listed_keys<T, V>(keys: Seq<T>, stored: Map<T, V>, n: nat, key: T)
    requires
        n <= keys.len(),
        stored.dom().finite(),
    ensures
        ({
            let (after, count) = zmq_hub::forgotten(keys, stored, n);
            &&& after.dom().finite()
            &&& count == stored.dom().len() - after.dom().len()
            &&& after.dom().contains(key) <==> stored.dom().contains(key) && !keys.subrange(
                0,
                n as int,
            ).contains(key)
            &&& after.dom().contains(key) ==> after[key] == stored[key]
        }),
    decreases n,
{
    let upto = keys.subrange(0, n as int);
    if n > 0 {
        let m = (n - 1) as nat;
        removals_forget_the_listed_keys(keys, stored, m, key);
        let before = zmq_hub::forgotten(keys, stored, m).0;
        let last = keys[n - 1];
        let head = keys.subrange(0, m as int);
        assert(before.remove(last).dom() =~= before.dom().remove(last));
        assert(upto[n - 1] == last);
        if upto.contains(key) {
            let i = upto.index_of(key);
            if i < m {
                assert(head[i] == key);
            }
        }
        if head.contains(key) {
            let i = head.index_of(key);
            assert(upto[i] == key);
        }
    }
}

/// A registration stores its entries, the last one of a key winning, and leaves other keys alone.
pub proof fn registrations_store_their_entries<K: TableKey, V, M>(
    entries: Seq<(K, V, M)>,
    stored: Map<K::V, V>,
    n: nat,
    key: K::V,
)
    requires
        n <= entries.len(),
    ensures
        ({
            let after = zmq_hub::registered(entries, stored, n);
            &&& (forall|i: int| 0 <= i < n ==> (#[trigger] entries[i]).0@ != key)
                ==> after.dom().contains(key) == stored.dom().contains(key) && after[key]
                == stored[key]
            &&& forall|i: int|
                #![trigger entries[i]]
                0 <= i < n && entries[i].0@ == key && (forall|j: int|
                    i < j < n ==> (#[trigger] entries[j]).0@ != key) ==> after.dom().contains(key)
                    && after[key] == entries[i].1
        }),
    decreases n,
{
    if n > 0 {
        let m = (n - 1) as nat;
        registrations_store_their_entries(entries, stored, m, key);
        assert forall|i: int|
            #![trigger entries[i]]
            0 <= i < n && entries[i].0@ == key && (forall|j: int|
                i < j < n ==> (#[trigger] entries[j]).0@ != key) implies zmq_hub::registered(
            entries,
            stored,
            n,
        ).dom().contains(key) && zmq_hub::registered(entries, stored, n)[key] == entries[i].1 by {
            if i < m {
                assert(entries[m as int].0@ != key);
            }
        }
    }
}

/// A query needs its asker in front and a request id behind; what is between does not matter.
pub proof fn queries_are_routed_by_their_ends(
    frames: Seq<Vec<u8>>,
    others: Seq<Vec<u8>>,
)
    ensures
        frames.len() < 2 ==> zmq_hub::routed(frames) is None,
        frames.len() >= 2 && frames.last()@.len() < 4 ==> zmq_hub::routed(frames) is None,
        frames.len() >= 2 && frames.last()@.len() >= 4 ==> zmq_hub::routed(frames) is Some
            && (zmq_hub::routed(frames)->0).0 == frames[0]@,
        frames.len() >= 2 && others.len() >= 2 && frames[0] == others[0] && frames.last()
            == others.last() ==> zmq_hub::routed(frames) == zmq_hub::routed(others),
{
}

/// An answer lists keys and values entry by entry, and keys stand as they were asked for.
pub proof fn answers_are_listed_entry_by_entry<K: TableKey, V, M>(
    entries: Seq<(K, V, M)>,
    keys: Seq<K>,
    i: int,
)
    ensures
        zmq_hub::entry_views(entries).len() == entries.len(),
        zmq_hub::keys_of(keys).len() == keys.len(),
        0 <= i < entries.len() ==> zmq_hub::entry_views(entries)[i].0 == entries[i].0@
            && zmq_hub::entry_views(entries)[i].1 == entries[i].1,
        0 <= i < keys.len() ==> zmq_hub::keys_of(keys)[i] == keys[i]@,
{
}

} // verus!
