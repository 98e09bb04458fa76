//! What holds of the parser whatever the bytes: laws over the model that the
//! contracts of the reads are stated in.

use crate::order::{
    be_bytes, be_value, decode, encode, le_bytes, le_value, opposite, span, Endian,
};
use crate::state::ParserState;
use crate::text::lemma_text_len_exists;
use vstd::prelude::*;

verus! {

/// The state after `count` reads of `width` bytes each, made one after another.
pub open spec fn after_reads(state: ParserState, width: nat, count: nat) -> ParserState
    decreases count,
{
    if count == 0 {
        state
    } else {
        after_reads(state, width, (count - 1) as nat).after_read(width)
    }
}

/// The numbers that `count` unsigned reads of `width` bytes each return in turn.
pub open spec fn values_read(state: ParserState, width: nat, count: nat) -> Seq<nat>
    decreases count,
{
    if count == 0 {
        Seq::empty()
    } else {
        values_read(state, width, (count - 1) as nat).push(
            after_reads(state, width, (count - 1) as nat).unsigned(width),
        )
    }
}

/// `bytes` decoded as one flat record of fields of `width` bytes each: field
/// `i` is the number that the bytes from `i * width` on spell.
pub open spec fn record(bytes: Seq<u8>, width: nat, endian: Endian) -> Seq<nat> {
    Seq::new(
        bytes.len() / width,
        |i: int| decode(bytes.subrange(i * width, i * width + width), endian),
    )
}

/// Same-width reads walk the buffer field by field. Where `count` fields of
/// `width` bytes remain, each of `count` reads in a row succeeds, read `i`
/// starts where read `i - 1` ended, the numbers returned are the flat record
/// that the bytes covered spell, and the position ends right behind them.
pub proof fn law_reads_cover_record(state: ParserState, width: nat, count: nat)
    requires
        width > 0,
        state.can_read(count * width),
    ensures
        forall|i: nat|
            i < count ==> (#[trigger] after_reads(state, width, i)).can_read(width),
        forall|i: nat|
            i <= count ==> #[trigger] after_reads(state, width, i) == state.at(
                state.position + i * width,
            ),
        values_read(state, width, count) == record(
            state.window(count * width),
            width,
            state.endian,
        ),
    decreases count,
{
    let covered = state.window(count * width);
    assert(covered.len() == count * width);
    assert(covered.len() / width == count) by (nonlinear_arith)
        requires
            covered.len() == count * width,
            width > 0,
    ;
    if count == 0 {
        assert(values_read(state, width, count) =~= record(covered, width, state.endian));
    } else {
        let before = (count - 1) as nat;
        assert(before * width + width == count * width) by (nonlinear_arith)
            requires
                before + 1 == count,
        ;
        law_reads_cover_record(state, width, before);
        let last = after_reads(state, width, before);
        assert(last == state.at(state.position + before * width));
        assert(last.can_read(width));
        assert forall|i: nat| i < count implies (#[trigger] after_reads(
            state,
            width,
            i,
        )).can_read(width) by {
            if i < before {
            } else {
                assert(i == before);
            }
        }
        assert forall|i: nat| i <= count implies #[trigger] after_reads(state, width, i)
            == state.at(state.position + i * width) by {
            if i <= before {
            } else {
                assert(i == count);
            }
        }
        let shorter = state.window(before * width);
        assert(shorter.len() / width == before) by (nonlinear_arith)
            requires
                shorter.len() == before * width,
                width > 0,
        ;
        let got = values_read(state, width, count);
        let want = record(covered, width, state.endian);
        assert(got.len() == want.len());
        assert forall|i: int| 0 <= i < got.len() implies got[i] == want[i] by {
            assert(0 <= i * width && i * width + width <= count * width)
                by (nonlinear_arith)
                requires
                    0 <= i < count,
                    width > 0,
            ;
            if i < before {
                assert(i * width + width <= before * width) by (nonlinear_arith)
                    requires
                        0 <= i < before,
                        width > 0,
                ;
                assert(got[i] == record(shorter, width, state.endian)[i]);
                assert(shorter.subrange(i * width, i * width + width) =~= covered.subrange(
                    i * width,
                    i * width + width,
                ));
            } else {
                assert(last.window(width) =~= covered.subrange(
                    i * width,
                    i * width + width,
                ));
            }
        }
        assert(got =~= want);
    }
}

/// A read for which too few bytes remain changes nothing.
pub proof fn law_failed_read_changes_nothing(state: ParserState, width: nat)
    requires
        state.position + width > state.bytes.len(),
    ensures
        !state.can_read(width),
        state.after_read(width) == state,
{
}

/// A read that succeeds leaves the position within the buffer, and so does a
/// string read from a position within the buffer.
pub proof fn law_position_stays_in_bounds(state: ParserState, width: nat)
    ensures
        state.can_read(width) ==> state.after_read(width).in_bounds(),
        state.in_bounds() ==> state.after_string().in_bounds(),
        state.in_bounds() ==> state.after_string().position >= state.position,
{
    lemma_text_len_exists(state.bytes, state.position);
}

/// Spelling a number takes as many bytes as were asked for.
pub proof fn law_encode_len(value: nat, width: nat, endian: Endian)
    ensures
        encode(value, width, endian).len() == width,
    decreases width,
{
    if width > 0 {
        law_encode_len(value / 256, (width - 1) as nat, endian);
    }
}

/// A number written in either byte order reads back under the same order.
pub proof fn law_decode_encode(value: nat, width: nat, endian: Endian)
    requires
        value < span(width),
    ensures
        decode(encode(value, width, endian), endian) == value,
    decreases width,
{
    if width > 0 {
        let rest = (width - 1) as nat;
        law_decode_encode(value / 256, rest, endian);
        law_encode_len(value / 256, rest, endian);
        match endian {
            Endian::Big => {
                let bytes = be_bytes(value, width);
                assert(bytes.drop_last() =~= be_bytes(value / 256, rest));
            },
            Endian::Little => {
                let bytes = le_bytes(value, width);
                assert(bytes.drop_first() =~= le_bytes(value / 256, rest));
            },
        }
    }
}

/// Least significant byte first is most significant byte first on the bytes
/// in reverse.
pub proof fn lemma_le_is_be_reversed(bytes: Seq<u8>)
    ensures
        le_value(bytes) == be_value(bytes.reverse()),
    decreases bytes.len(),
{
    if bytes.len() > 0 {
        lemma_le_is_be_reversed(bytes.drop_first());
        assert(bytes.reverse().drop_last() =~= bytes.drop_first().reverse());
    }
}

/// The same bytes under the opposite byte order spell what the bytes in
/// reverse spell under this one.
pub proof fn law_opposite_order_reverses(bytes: Seq<u8>, endian: Endian)
    ensures
        decode(bytes, opposite(endian)) == decode(bytes.reverse(), endian),
{
    match endian {
        Endian::Big => {
            lemma_le_is_be_reversed(bytes);
        },
        Endian::Little => {
            lemma_le_is_be_reversed(bytes.reverse());
            assert(bytes.reverse().reverse() =~= bytes);
        },
    }
}

/// A parser that stands before the bytes of `value`, written under its own
/// byte order, reads `value`; switched to the opposite order it reads what the
/// reversed bytes spell.
pub proof fn law_read_back(state: ParserState, value: nat, width: nat)
    requires
        value < span(width),
        state.can_read(width),
        state.window(width) == encode(value, width, state.endian),
    ensures
        state.unsigned(width) == value,
        state.with_endian(opposite(state.endian)).unsigned(width) == decode(
            state.window(width).reverse(),
            state.endian,
        ),
{
    law_decode_encode(value, width, state.endian);
    law_opposite_order_reverses(state.window(width), state.endian);
}

/// Switching the byte order touches neither bytes nor position, so nothing
/// shows before the next read; of several switches in a row only the last one
/// counts, and a read of a string does not depend on the order at all.
pub proof fn law_mode_switch(state: ParserState, first: Endian, second: Endian, width: nat)
    ensures
        state.with_endian(first).bytes == state.bytes,
        state.with_endian(first).position == state.position,
        state.with_endian(state.endian) == state,
        state.with_endian(first).with_endian(second) == state.with_endian(second),
        state.with_endian(first).unsigned(width) == decode(state.window(width), first),
        state.with_endian(first).after_read(width) == state.after_read(width).with_endian(
            first,
        ),
        state.with_endian(first).text() == state.text(),
        state.with_endian(first).after_string() == state.after_string().with_endian(first),
{
}

} // verus!
