//! What the single commands say and what they make of the answers, exchange by exchange.
use vstd::prelude::*;
use vstd::utf8::{decode_utf8, encode_utf8, valid_utf8};

use crate::app_config::laws::decimal_is_read_back;
use crate::codec::{le32, le32_at, lemma_le32, lossy_text, zeros};
use crate::device::command::{number_outcome, text_outcome};
use crate::device::delivery::{commands_are_headed, word, wrote_bytes, wrote_header};
use crate::device::talk::{
    block_size_talk, cfg_bytes, cfg_talk, chunk_talk, end_talk, header_talk, header_worth_repeating,
    hwinfo_talk, indented, info_lines, info_talk, log_talk, media_talk, meta_talk, number_talk,
    order_talk, query_talk, response_talk, shell_bytes, shell_talk, show_talk, sized_order_talk,
    speed_talk, Profile,
};
use crate::number::{dec, digits_value, hex_wide, hexadecimal_is_read_back};
use crate::protocol::cbw_csw::{cmd_bytes, hw_chip_id, hw_magic, resp_ok};
use crate::text::{joined, mentions, stands_at, without_trailing};
use crate::transport::{done, read_outcome, CswPolicy, Exchange};

verus! {

// ---------------------------------------------------------------------------------------
// Answers
// ---------------------------------------------------------------------------------------
/// Whether `b` begins with the header of a response that reports success: the letters UPGR, and
/// a status of zero.
pub open spec fn is_good_response(b: Seq<u8>) -> bool {
    &&& b.len() >= 16
    &&& b[0] == 0x55 && b[1] == 0x50 && b[2] == 0x47 && b[3] == 0x52
    &&& b[7] == 0
}

/// Whether the exchange at `i` is a read of `len` bytes that gave `bytes`.
pub open spec fn read_bytes(
    h: Seq<Exchange>,
    i: int,
    len: int,
    bytes: Seq<u8>,
    policy: CswPolicy,
) -> bool {
    &&& 0 <= i < h.len()
    &&& h[i] matches Exchange::Read { len: n, policy: q, outcome }
    &&& n == len
    &&& q == policy
    &&& outcome == Ok::<Seq<u8>, Seq<char>>(bytes)
}

/// Whether a response with the data `d` was read from `i` up to `j`: a header of sixteen bytes
/// that reports success, then as many bytes as it announces, or `usual` where it announces none.
pub open spec fn answered(
    h: Seq<Exchange>,
    i: int,
    j: int,
    usual: int,
    policy: CswPolicy,
    d: Seq<u8>,
) -> bool {
    exists|header: Seq<u8>| #[trigger] answered_by(h, i, j, usual, policy, d, header)
}

/// Whether a response was read whose header is `header`.
pub open spec fn answered_by(
    h: Seq<Exchange>,
    i: int,
    j: int,
    usual: int,
    policy: CswPolicy,
    d: Seq<u8>,
    header: Seq<u8>,
) -> bool {
    let n = if word(header, 8) > 0 {
        word(header, 8)
    } else {
        usual
    };
    &&& read_bytes(h, i, 16, header, policy)
    &&& is_good_response(header)
    &&& if n == 0 {
        d.len() == 0 && j == i + 1
    } else {
        read_bytes(h, i + 1, n, d, policy) && j == i + 2
    }
}

proof fn lemma_good_response(b: Seq<u8>)
    requires
        b.len() >= 16,
    ensures
        is_good_response(b) == (le32_at(b, 0) == 0x52475055 && b[7] == 0),
        word(b, 8) == le32_at(b, 8),
{
    let n: int = b[0] + 256 * b[1] + 65536 * b[2] + 16777216 * b[3];
    assert(le32_at(b, 0) == n);
}

/// Where a response is required, a command gets the bytes that the device sent for it, whole and
/// unchanged, if and only if the device reported success.
pub proof fn responses_are_taken_as_sent(
    h: Seq<Exchange>,
    i: int,
    j: int,
    cmd: u8,
    usual: u32,
    d: Seq<u8>,
)
    ensures
        response_talk(h, i, cmd, usual, CswPolicy::Required) == Some(
            (j, Ok::<Seq<u8>, Seq<char>>(d)),
        ) <==> answered(h, i, j, usual as int, CswPolicy::Required, d),
{
    let policy = CswPolicy::Required;
    if answered(h, i, j, usual as int, policy, d) {
        let header = choose|header: Seq<u8>| #[trigger]
            answered_by(h, i, j, usual as int, policy, d, header);
        lemma_good_response(header);
        if d.len() == 0 {
            assert(d =~= Seq::<u8>::empty());
        }
    }
    if response_talk(h, i, cmd, usual, policy) == Some((j, Ok::<Seq<u8>, Seq<char>>(d))) {
        match h[i] {
            Exchange::Read { outcome: Ok(header), .. } => {
                lemma_good_response(header);
                assert(answered_by(h, i, j, usual as int, policy, d, header));
            },
            _ => {},
        }
    }
}

/// Where a response may be missing, what does not come is taken to be empty; but a response that
/// reports a failure is a failure all the same, and one that comes is taken as it was sent.
pub proof fn missing_responses_are_empty(
    h: Seq<Exchange>,
    i: int,
    j: int,
    cmd: u8,
    usual: u32,
    d: Seq<u8>,
    why: Seq<char>,
)
    ensures
        (0 <= i < h.len() && h[i] == (Exchange::Read {
            len: 16,
            policy: CswPolicy::AllowMissing,
            outcome: Err(why),
        })) ==> response_talk(h, i, cmd, usual, CswPolicy::AllowMissing) == Some(
            (i + 1, Ok::<Seq<u8>, Seq<char>>(Seq::empty())),
        ),
        answered(h, i, j, usual as int, CswPolicy::AllowMissing, d) ==> response_talk(
            h,
            i,
            cmd,
            usual,
            CswPolicy::AllowMissing,
        ) == Some((j, Ok::<Seq<u8>, Seq<char>>(d))),
        (0 <= i < h.len() && h[i] == (Exchange::Read {
            len: 16,
            policy: CswPolicy::AllowMissing,
            outcome: Ok(d),
        }) && !is_good_response(d)) ==> (response_talk(
            h,
            i,
            cmd,
            usual,
            CswPolicy::AllowMissing,
        ) matches Some((_, Err(_)))),
{
    let policy = CswPolicy::AllowMissing;
    if answered(h, i, j, usual as int, policy, d) {
        let header = choose|header: Seq<u8>| #[trigger]
            answered_by(h, i, j, usual as int, policy, d, header);
        lemma_good_response(header);
        if d.len() == 0 {
            assert(d =~= Seq::<u8>::empty());
        }
    }
    if d.len() >= 16 {
        lemma_good_response(d);
    }
}

// ---------------------------------------------------------------------------------------
// Commands without data
// ---------------------------------------------------------------------------------------
/// Whether, from `i` up to `j`, the command `cmd` was given without data and answered by `d`.
pub open spec fn asked_for(
    h: Seq<Exchange>,
    i: int,
    j: int,
    cmd: u8,
    usual: int,
    d: Seq<u8>,
) -> bool {
    exists|k: int| #[trigger] asked_for_at(h, i, j, cmd, usual, d, k)
}

/// Whether the command was given at `k`: at once, or after one refusal and a wait.
pub open spec fn asked_for_at(
    h: Seq<Exchange>,
    i: int,
    j: int,
    cmd: u8,
    usual: int,
    d: Seq<u8>,
    k: int,
) -> bool {
    &&& k == i || k == i + 2
    &&& wrote_header(h, k, cmd, 0)
    &&& answered(h, k + 1, j, usual, CswPolicy::Required, d)
}

/// A question gets the answer that the device sent to it.
pub proof fn questions_get_their_answers(
    p: Profile,
    h: Seq<Exchange>,
    i: int,
    j: int,
    cmd: u8,
    usual: u32,
    d: Seq<u8>,
)
    ensures
        query_talk(p, h, i, cmd, usual) == Some((j, Ok::<Seq<u8>, Seq<char>>(d))) ==> asked_for(
            h,
            i,
            j,
            cmd,
            usual as int,
            d,
        ),
{
    commands_are_headed(p, h, i, cmd, 0);
    match header_talk(p, h, i, cmd, 0) {
        Some((k, Ok(()))) => {
            responses_are_taken_as_sent(h, k, j, cmd, usual, d);
            if query_talk(p, h, i, cmd, usual) == Some((j, Ok::<Seq<u8>, Seq<char>>(d))) {
                assert(asked_for_at(h, i, j, cmd, usual as int, d, k - 1));
            }
        },
        _ => {},
    }
}

/// The hardware report is what the device answered to the question for it, and it is whole.
pub proof fn hardware_report_is_the_answer(p: Profile, h: Seq<Exchange>, i: int)
    ensures
        hwinfo_talk(p, h, i) matches Some((j, Ok(d))) ==> d.len() >= 104 && asked_for(
            h,
            i,
            j,
            p.codes.get_hwinfo,
            104,
            d,
        ),
{
    match hwinfo_talk(p, h, i) {
        Some((j, Ok(d))) => {
            questions_get_their_answers(p, h, i, j, p.codes.get_hwinfo, 104, d);
        },
        _ => {},
    }
}

/// Whether, from `i` up to `j`, the device was asked by `cmd` and told the number `n`, in four
/// bytes, the least significant first.
pub open spec fn number_told(h: Seq<Exchange>, i: int, j: int, cmd: u8, n: int) -> bool {
    exists|d: Seq<u8>| #[trigger]
        asked_for(h, i, j, cmd, 4, d) && d.len() >= 4 && word(d, 0) == n
}

proof fn lemma_told(h: Seq<Exchange>, i: int, j: int, cmd: u8, d: Seq<u8>)
    requires
        asked_for(h, i, j, cmd, 4, d),
        d.len() >= 4,
    ensures
        number_told(h, i, j, cmd, le32_at(d, 0) as int),
{
    assert(le32_at(d, 0) == word(d, 0));
}

/// A number is the one that the device told.
pub proof fn numbers_are_the_answers(
    p: Profile,
    h: Seq<Exchange>,
    i: int,
    cmd: u8,
    what: Seq<char>,
)
    ensures
        number_talk(p, h, i, cmd, what) matches Some((j, Ok(n))) ==> number_told(
            h,
            i,
            j,
            cmd,
            n as int,
        ),
        block_size_talk(p, h, i) matches Some((j, Ok(n))) ==> number_told(
            h,
            i,
            j,
            p.codes.get_block_size,
            n as int,
        ),
{
    lemma_number(p, h, i, cmd, what);
    lemma_number(p, h, i, p.codes.get_block_size, "Block size"@);
}

proof fn lemma_number(p: Profile, h: Seq<Exchange>, i: int, cmd: u8, what: Seq<char>)
    ensures
        number_talk(p, h, i, cmd, what) matches Some((j, Ok(n))) ==> number_told(
            h,
            i,
            j,
            cmd,
            n as int,
        ),
{
    match query_talk(p, h, i, cmd, 4) {
        Some((j, Ok(d))) => {
            questions_get_their_answers(p, h, i, j, cmd, 4, d);
            if d.len() >= 4 {
                lemma_told(h, i, j, cmd, d);
            }
        },
        _ => {},
    }
}

/// Whether, from `i` up to `j`, the device was asked by `cmd` and told the text `name`, filled up
/// with zeros.
pub open spec fn name_told(h: Seq<Exchange>, i: int, j: int, cmd: u8, name: Seq<char>) -> bool {
    exists|d: Seq<u8>| #[trigger]
        asked_for(h, i, j, cmd, 64, d) && filled_up(lossy_text(d), name, '\0')
}

proof fn lemma_named(h: Seq<Exchange>, i: int, j: int, cmd: u8, d: Seq<u8>)
    requires
        asked_for(h, i, j, cmd, 64, d),
    ensures
        name_told(h, i, j, cmd, without_trailing(lossy_text(d), '\0')),
{
    trailing_is_cut_off(lossy_text(d), '\0');
}

/// The name of the medium is the text that the device told, up to the zeros it is filled up with.
pub proof fn media_name_is_the_answer(p: Profile, h: Seq<Exchange>, i: int)
    ensures
        media_talk(p, h, i) matches Some((j, Ok(name))) ==> name_told(
            h,
            i,
            j,
            p.codes.get_storage_media,
            name,
        ),
{
    match query_talk(p, h, i, p.codes.get_storage_media, 64) {
        Some((j, Ok(d))) => {
            questions_get_their_answers(p, h, i, j, p.codes.get_storage_media, 64, d);
            lemma_named(h, i, j, p.codes.get_storage_media, d);
        },
        _ => {},
    }
}

/// Whether `field` is `name` with only `c` behind it, and `name` does not end in `c`.
pub open spec fn filled_up(field: Seq<char>, name: Seq<char>, c: char) -> bool {
    &&& name.len() <= field.len()
    &&& field.take(name.len() as int) == name
    &&& forall|i: int| name.len() <= i < field.len() ==> field[i] == c
    &&& name.len() > 0 ==> name.last() != c
}

/// What is left of a text that is filled up with `c` is the text before that.
pub proof fn trailing_is_cut_off(s: Seq<char>, c: char)
    ensures
        filled_up(s, without_trailing(s, c), c),
    decreases s.len(),
{
    let name = without_trailing(s, c);
    if s.len() > 0 && s.last() == c {
        let front = s.drop_last();
        trailing_is_cut_off(front, c);
        assert(s.take(name.len() as int) =~= front.take(name.len() as int));
        assert forall|i: int| name.len() <= i < s.len() implies s[i] == c by {
            if i < front.len() {
                assert(front[i] == s[i]);
            }
        }
    } else {
        assert(s.take(s.len() as int) =~= s);
    }
}

/// Whether, from `i` up to `j`, the device was asked by `cmd` for `len` bytes of text and told
/// `text`.
pub open spec fn text_told(
    h: Seq<Exchange>,
    i: int,
    j: int,
    cmd: u8,
    len: int,
    text: Seq<char>,
) -> bool {
    exists|d: Seq<u8>| #[trigger] asked_for(h, i, j, cmd, len, d) && lossy_text(d) == text
}

proof fn lemma_text_told(h: Seq<Exchange>, i: int, j: int, cmd: u8, len: int, d: Seq<u8>)
    requires
        asked_for(h, i, j, cmd, len, d),
    ensures
        text_told(h, i, j, cmd, len, lossy_text(d)),
{
}

/// The log is asked for by its size: an empty one is not read, any other is, and its text is
/// what the device told.
pub proof fn log_is_the_answer(p: Profile, h: Seq<Exchange>, i: int)
    ensures
        log_talk(p, h, i) matches Some((j, Ok(text))) ==> exists|k: int, size: int| #[trigger]
            log_told(p, h, i, j, text, k, size),
{
    lemma_number(p, h, i, p.codes.get_log_size, "Log size"@);
    match number_talk(p, h, i, p.codes.get_log_size, "Log size"@) {
        Some((k, Ok(size))) => {
            match query_talk(p, h, k, p.codes.get_log_data, size) {
                Some((j, Ok(d))) => {
                    questions_get_their_answers(p, h, k, j, p.codes.get_log_data, size, d);
                    lemma_text_told(h, k, j, p.codes.get_log_data, size as int, d);
                },
                _ => {},
            }
            match log_talk(p, h, i) {
                Some((j, Ok(text))) => {
                    assert(log_told(p, h, i, j, text, k, size as int));
                },
                _ => {},
            }
        },
        _ => {},
    }
}

/// Whether, from `i` on, the device told the size of its log up to `k`, and then, where it is not
/// empty, the log itself up to `j`.
pub open spec fn log_told(
    p: Profile,
    h: Seq<Exchange>,
    i: int,
    j: int,
    text: Seq<char>,
    k: int,
    size: int,
) -> bool {
    &&& number_told(h, i, k, p.codes.get_log_size, size)
    &&& if size == 0 {
        text.len() == 0 && j == k
    } else {
        text_told(h, k, j, p.codes.get_log_data, size, text)
    }
}

// ---------------------------------------------------------------------------------------
// Commands with data
// ---------------------------------------------------------------------------------------
/// Whether, from `i` up to `j`, the header of `cmd` was written and, right behind it, exactly
/// `payload`.
pub open spec fn ordered(
    h: Seq<Exchange>,
    i: int,
    j: int,
    cmd: u8,
    payload: Seq<u8>,
    policy: CswPolicy,
) -> bool {
    exists|k: int| #[trigger] ordered_at(h, i, j, cmd, payload, policy, k)
}

/// Whether the header of `cmd` was written at `k`: at once, or after one refusal and a wait.
pub open spec fn ordered_at(
    h: Seq<Exchange>,
    i: int,
    j: int,
    cmd: u8,
    payload: Seq<u8>,
    policy: CswPolicy,
    k: int,
) -> bool {
    &&& k == i || k == i + 2
    &&& k + 2 <= j
    &&& wrote_header(h, k, cmd, (payload.len() as u32) as int)
    &&& wrote_bytes(h, k + 1, payload, policy)
}

/// A command with data that succeeds has written its header and its data, and nothing between
/// them. Where its answer is required, the device confirmed it.
pub proof fn orders_carry_their_data(
    p: Profile,
    h: Seq<Exchange>,
    i: int,
    cmd: u8,
    payload: Seq<u8>,
    usual: u32,
    policy: CswPolicy,
)
    ensures
        order_talk(p, h, i, cmd, payload, usual, policy) matches Some((j, Ok(d))) ==> {
            &&& ordered(h, i, j, cmd, payload, policy)
            &&& policy == CswPolicy::Required ==> exists|k: int| #[trigger]
                ordered_at(h, i, j, cmd, payload, policy, k) && answered(
                    h,
                    k + 2,
                    j,
                    usual as int,
                    policy,
                    d,
                )
        },
{
    let n = payload.len() as u32;
    commands_are_headed(p, h, i, cmd, n);
    match (header_talk(p, h, i, cmd, n), order_talk(p, h, i, cmd, payload, usual, policy)) {
        (Some((k, Ok(()))), Some((j, Ok(d)))) => {
            assert(ordered_at(h, i, j, cmd, payload, policy, k - 1));
            responses_are_taken_as_sent(h, k + 1, j, cmd, usual, d);
        },
        _ => {},
    }
}

/// A component is announced by its record, unchanged.
pub proof fn records_are_sent_unchanged(p: Profile, h: Seq<Exchange>, i: int, record: Seq<u8>)
    ensures
        meta_talk(p, h, i, record) matches Some((j, Ok(()))) ==> ordered(
            h,
            i,
            j,
            p.codes.set_fwc_meta,
            record,
            CswPolicy::Required,
        ),
{
    orders_carry_their_data(
        p,
        h,
        i,
        p.codes.set_fwc_meta,
        record,
        0,
        CswPolicy::Required,
    );
}

/// Whether `b` holds the shell command `command`: the number of its bytes, least significant
/// first, then the bytes.
pub open spec fn is_shell_command(b: Seq<u8>, command: Seq<char>) -> bool {
    &&& b.len() == encode_utf8(command).len() + 4
    &&& word(b, 0) == encode_utf8(command).len()
    &&& b.skip(4) == encode_utf8(command)
}

/// A shell command goes out as its text.
pub proof fn shell_commands_are_sent_as_text(
    p: Profile,
    h: Seq<Exchange>,
    i: int,
    command: Seq<char>,
)
    requires
        encode_utf8(command).len() <= u32::MAX,
    ensures
        is_shell_command(shell_bytes(command), command),
        shell_talk(p, h, i, command) matches Some((j, Ok(()))) ==> exists|b: Seq<u8>|
            is_shell_command(b, command) && #[trigger] ordered(
                h,
                i,
                j,
                p.codes.run_shell_str,
                b,
                CswPolicy::Required,
            ),
{
    let b = shell_bytes(command);
    let n = encode_utf8(command).len() as u32;
    assert(b.skip(4) =~= encode_utf8(command));
    assert(b.subrange(0, 4) =~= le32(n));
    lemma_le32(n, b, 0);
    assert(le32_at(b, 0) == word(b, 0));
    orders_carry_their_data(p, h, i, p.codes.run_shell_str, b, 0, CswPolicy::Required);
    match shell_talk(p, h, i, command) {
        Some((j, Ok(()))) => {
            assert(is_shell_command(b, command) && ordered(
                h,
                i,
                j,
                p.codes.run_shell_str,
                b,
                CswPolicy::Required,
            ));
        },
        _ => {},
    }
}

/// The bytes of an upgrade configuration: the mode first, then what the vendor's tool sends.
pub proof fn configuration_is_laid_out(mode: u8)
    ensures
        cfg_bytes(mode) == seq![
            mode, 0xea, 0x00, 0x00, 0xbc, 0xf5, 0x44, 0x04, 0x50, 0xf5, 0x44, 0x04, 0x01, 0x00,
            0x00, 0x00, 0x18, 0x73, 0xdf, 0x05, 0x50, 0xf5, 0x44, 0x04, 0x40, 0xfe, 0xf1, 0x00,
            0x18, 0x73, 0xdf, 0x05,
        ],
{
    assert(cfg_bytes(mode) =~= seq![
        mode, 0xea, 0x00, 0x00, 0xbc, 0xf5, 0x44, 0x04, 0x50, 0xf5, 0x44, 0x04, 0x01, 0x00,
        0x00, 0x00, 0x18, 0x73, 0xdf, 0x05, 0x50, 0xf5, 0x44, 0x04, 0x40, 0xfe, 0xf1, 0x00,
        0x18, 0x73, 0xdf, 0x05,
    ]);
}

/// Whether, from `i` up to `j`, the upgrade mode was chosen: the header, the number of bytes that
/// follow, and the configuration, each in a write of its own, and the device's answer to that.
pub open spec fn mode_chosen_at(
    p: Profile,
    h: Seq<Exchange>,
    i: int,
    j: int,
    mode: u8,
    k: int,
) -> bool {
    &&& k == i || k == i + 2
    &&& k + 3 <= j
    &&& confirmed(h, k + 3, j)
    &&& wrote_header(h, k, p.codes.set_upg_cfg, 36)
    &&& wrote_bytes(h, k + 1, seq![32u8, 0u8, 0u8, 0u8], CswPolicy::Required)
    &&& 0 <= k + 2 < h.len()
    &&& h[k + 2] matches Exchange::Write { payload, policy, outcome }
    &&& payload.len() == 32 && payload[0] == mode
    &&& policy == CswPolicy::Required
    &&& outcome is Ok
}

/// Whether a required response was read from `i` up to `j`.
pub open spec fn confirmed(h: Seq<Exchange>, i: int, j: int) -> bool {
    exists|d: Seq<u8>| #[trigger] answered(h, i, j, 0, CswPolicy::Required, d)
}

proof fn lemma_confirmed(h: Seq<Exchange>, i: int, j: int, d: Seq<u8>)
    requires
        answered(h, i, j, 0, CswPolicy::Required, d),
    ensures
        confirmed(h, i, j),
{
}

/// The upgrade mode is chosen by a configuration that begins with it, and the device confirmed
/// it.
pub proof fn mode_is_chosen(p: Profile, h: Seq<Exchange>, i: int, mode: u8)
    ensures
        cfg_talk(p, h, i, mode) matches Some((j, Ok(()))) ==> exists|k: int| #[trigger]
            mode_chosen_at(p, h, i, j, mode, k),
{
    let cmd = p.codes.set_upg_cfg;
    configuration_is_laid_out(mode);
    let payload = cfg_bytes(mode);
    assert(payload.len() == 32);
    assert(le32(32) =~= seq![32u8, 0u8, 0u8, 0u8]);
    commands_are_headed(p, h, i, cmd, 36);
    assert((payload.len() + 4) as u32 == 36);
    match cfg_talk(p, h, i, mode) {
        Some((j, Ok(()))) => {
            let (k, _) = header_talk(p, h, i, cmd, 36)->0;
            let (_, answer) = sized_order_talk(p, h, i, cmd, payload, 0)->0;
            let d = answer->Ok_0;
            responses_are_taken_as_sent(h, k + 2, j, cmd, 0, d);
            lemma_confirmed(h, k + 2, j, d);
            assert(mode_chosen_at(p, h, i, j, mode, k - 1));
        },
        _ => {},
    }
}

/// The end of an upgrade is told by a length of thirty-two and as many zeros; the device may be
/// gone before it confirms that.
pub proof fn end_is_told(p: Profile, h: Seq<Exchange>, i: int)
    ensures
        end_talk(p, h, i) matches Some((j, Ok(()))) ==> exists|b: Seq<u8>|
            is_end_of_upgrade(b) && #[trigger] ordered(
                h,
                i,
                j,
                p.codes.set_upg_end,
                b,
                CswPolicy::AllowMissing,
            ),
{
    let b = le32(32) + zeros(32);
    assert(le32(32) =~= seq![32u8, 0u8, 0u8, 0u8]);
    assert(is_end_of_upgrade(b));
    orders_carry_their_data(p, h, i, p.codes.set_upg_end, b, 0, CswPolicy::AllowMissing);
    match end_talk(p, h, i) {
        Some((j, Ok(()))) => {
            assert(ordered(h, i, j, p.codes.set_upg_end, b, CswPolicy::AllowMissing));
        },
        _ => {},
    }
}

/// Whether `b` is what ends an upgrade.
pub open spec fn is_end_of_upgrade(b: Seq<u8>) -> bool {
    &&& b.len() == 36
    &&& word(b, 0) == 32
    &&& forall|i: int| 4 <= i < 36 ==> b[i] == 0
}

/// A piece of data goes out unchanged in one write. Stale bytes are discarded only after a status
/// wrapper that may be missing and is; whether that succeeds does not matter.
pub proof fn pieces_go_out_unchanged(
    h: Seq<Exchange>,
    i: int,
    chunk: Seq<u8>,
    policy: CswPolicy,
)
    ensures
        chunk_talk(h, i, chunk, policy) matches Some((j, Ok(()))) ==> {
            &&& wrote_bytes(h, i, chunk, policy)
            &&& (h[i] matches Exchange::Write { outcome: Ok(csw), .. } && if csw is None && policy
                == CswPolicy::AllowMissing {
                j == i + 2 && (h[i + 1] matches Exchange::Drain { timeout, max_bytes, .. }
                    && timeout == 50 && max_bytes == 65536)
            } else {
                j == i + 1
            })
        },
{
}

/// A change of speed asks the transport for exactly that speed, and fails where the transport
/// does; afterwards the device is asked for its report, and whatever comes of that does not
/// count.
pub proof fn speed_is_passed_on(p: Profile, h: Seq<Exchange>, i: int, baudrate: u32)
    ensures
        speed_talk(p, h, i, baudrate) matches Some((j, r)) ==> (h[i] matches Exchange::Baudrate {
            baudrate: asked,
            outcome,
        } && asked == baudrate && match outcome {
            Ok(()) => r is Ok && (hwinfo_talk(p, h, i + 1) matches Some((k, _)) && k == j),
            Err(e) => r == Err::<(), Seq<char>>(e) && j == i + 1,
        }),
{
}

// ---------------------------------------------------------------------------------------
// The report as text
// ---------------------------------------------------------------------------------------
/// Whether `line` is `label` and behind it the digits of `n` in base `base`.
pub open spec fn tells(line: Seq<char>, label: Seq<char>, n: int, base: nat) -> bool {
    &&& line.len() > label.len()
    &&& line.take(label.len() as int) == label
    &&& digits_value(line.skip(label.len() as int), base) == Some(n as nat)
}

/// The numbers of a hardware report can be read off its lines: the modes, the boot stage, and the
/// four words of the chip's identity, each at its own place.
pub proof fn report_can_be_read(hw: Seq<u8>, media: Option<Seq<char>>, k: int)
    requires
        hw.len() >= 104,
        0 <= k < 4,
    ensures
        ({
            let lines = info_lines(hw, media);
            let chip = lines[4];
            &&& lines.len() == if media is Some {
                6int
            } else {
                5int
            }
            &&& tells(lines[1], "Init mode:    0x"@, word(hw, 8), 16)
            &&& tells(lines[2], "Current mode: 0x"@, word(hw, 12), 16)
            &&& tells(lines[3], "Boot stage:   "@, word(hw, 16), 10)
            &&& chip.len() == 49
            &&& chip.take(14) == "Chip ID:      "@
            &&& digits_value(chip.subrange(14 + 9 * k, 22 + 9 * k), 16) == Some(
                word(hw, 48 + 4 * k) as nat,
            )
            &&& media matches Some(name) ==> lines[5] == "Storage media: "@ + name
        }),
{
    let lines = info_lines(hw, media);
    let id = hw_chip_id(hw);
    reveal_strlit("Init mode:    0x");
    reveal_strlit("Current mode: 0x");
    reveal_strlit("Boot stage:   ");
    reveal_strlit("Chip ID:      ");
    reveal_strlit(" ");
    assert(le32_at(hw, 8) == word(hw, 8));
    assert(le32_at(hw, 12) == word(hw, 12));
    assert(le32_at(hw, 16) == word(hw, 16));
    assert(id[0] == word(hw, 48) && id[1] == word(hw, 52) && id[2] == word(hw, 56) && id[3]
        == word(hw, 60));
    let init = le32_at(hw, 8) as nat;
    let current = le32_at(hw, 12) as nat;
    let stage = le32_at(hw, 16) as nat;
    hexadecimal_is_read_back(init, 0);
    hexadecimal_is_read_back(current, 0);
    decimal_is_read_back(stage);
    let a = crate::number::hex(init);
    let b = crate::number::hex(current);
    let c = crate::number::dec(stage);
    assert(lines[1].skip(16) =~= a);
    assert(lines[1].take(16) =~= "Init mode:    0x"@);
    assert(lines[2].skip(16) =~= b);
    assert(lines[2].take(16) =~= "Current mode: 0x"@);
    assert(lines[3].skip(14) =~= c);
    assert(lines[3].take(14) =~= "Boot stage:   "@);
    let chip = lines[4];
    hexadecimal_is_read_back(id[0] as nat, 8);
    hexadecimal_is_read_back(id[1] as nat, 8);
    hexadecimal_is_read_back(id[2] as nat, 8);
    hexadecimal_is_read_back(id[3] as nat, 8);
    assert(chip.take(14) =~= "Chip ID:      "@);
    assert(chip.subrange(14, 22) =~= hex_wide(id[0] as nat, 8));
    assert(chip.subrange(23, 31) =~= hex_wide(id[1] as nat, 8));
    assert(chip.subrange(32, 40) =~= hex_wide(id[2] as nat, 8));
    assert(chip.subrange(41, 49) =~= hex_wide(id[3] as nat, 8));
}

/// The first line of a report is the magic with which it begins: the text of its first eight
/// bytes, up to the zeros they are filled up with, or none where they are no text.
pub proof fn magic_is_told(hw: Seq<u8>, media: Option<Seq<char>>)
    ensures
        ({
            let line = info_lines(hw, media)[0];
            &&& line.len() >= 14
            &&& line.take(14) == "Magic:        "@
            &&& valid_utf8(hw.take(8)) ==> filled_up(decode_utf8(hw.take(8)), line.skip(14), '\0')
            &&& !valid_utf8(hw.take(8)) ==> line.len() == 14
        }),
{
    reveal_strlit("Magic:        ");
    let line = info_lines(hw, media)[0];
    assert(line.take(14) =~= "Magic:        "@);
    assert(line.skip(14) =~= hw_magic(hw));
    trailing_is_cut_off(decode_utf8(hw.take(8)), '\0');
}

/// Two chips whose identities differ in any byte have different lines.
pub proof fn chips_are_told_apart(
    a: Seq<u8>,
    b: Seq<u8>,
    media: Option<Seq<char>>,
    other: Option<Seq<char>>,
)
    requires
        a.len() >= 104,
        b.len() >= 104,
        a.subrange(48, 64) != b.subrange(48, 64),
    ensures
        info_lines(a, media)[4] != info_lines(b, other)[4],
{
    let x = info_lines(a, media)[4];
    let y = info_lines(b, other)[4];
    if x == y {
        lemma_same_id_word(a, b, media, other, 0);
        lemma_same_id_word(a, b, media, other, 1);
        lemma_same_id_word(a, b, media, other, 2);
        lemma_same_id_word(a, b, media, other, 3);
        assert(a.subrange(48, 64) =~= b.subrange(48, 64));
    }
}

proof fn lemma_same_id_word(
    a: Seq<u8>,
    b: Seq<u8>,
    media: Option<Seq<char>>,
    other: Option<Seq<char>>,
    k: int,
)
    requires
        a.len() >= 104,
        b.len() >= 104,
        0 <= k < 4,
        info_lines(a, media)[4] == info_lines(b, other)[4],
    ensures
        forall|i: int| 48 + 4 * k <= i < 52 + 4 * k ==> #[trigger] a[i] == b[i],
{
    assert(word(a, 48 + 4 * k) == word(b, 48 + 4 * k)) by {
        report_can_be_read(a, media, k);
        report_can_be_read(b, other, k);
    }
    lemma_same_word(a, b, 48 + 4 * k);
}

proof fn lemma_word_bytes(a: Seq<u8>, at: int)
    ensures
        a[at] == word(a, at) % 256,
        a[at + 1] == word(a, at) / 256 % 256,
        a[at + 2] == word(a, at) / 65536 % 256,
        a[at + 3] == word(a, at) / 16777216,
{
}

proof fn lemma_same_word(a: Seq<u8>, b: Seq<u8>, at: int)
    requires
        word(a, at) == word(b, at),
    ensures
        forall|i: int| at <= i < at + 4 ==> #[trigger] a[i] == b[i],
{
    lemma_word_bytes(a, at);
    lemma_word_bytes(b, at);
}

/// Whether, from `i` up to `j`, the device reported on itself, and `lines` are the lines of that
/// report, each behind two blanks.
pub open spec fn shown(
    p: Profile,
    h: Seq<Exchange>,
    i: int,
    j: int,
    lines: Seq<Seq<char>>,
) -> bool {
    exists|hw: Seq<u8>| #[trigger]
        asked_for(h, i, j, p.codes.get_hwinfo, 104, hw) && hw.len() >= 104 && lines.len() == 5
            && forall|n: int|
            0 <= n < 5 ==> #[trigger] lines[n] == "  "@ + info_lines(hw, None)[n]
}

proof fn lemma_shown(p: Profile, h: Seq<Exchange>, i: int, j: int, hw: Seq<u8>)
    requires
        asked_for(h, i, j, p.codes.get_hwinfo, 104, hw),
        hw.len() >= 104,
    ensures
        shown(p, h, i, j, indented(info_lines(hw, None))),
{
}

/// What is shown of a device is the report that it gave.
pub proof fn shown_is_the_answer(p: Profile, h: Seq<Exchange>, i: int)
    ensures
        show_talk(p, h, i) matches Some((j, Ok(lines))) ==> shown(p, h, i, j, lines),
{
    hardware_report_is_the_answer(p, h, i);
    match hwinfo_talk(p, h, i) {
        Some((j, Ok(hw))) => {
            lemma_shown(p, h, i, j, hw);
        },
        _ => {},
    }
}

/// The report on a device is the lines of what it answered, one below the other; a medium that
/// cannot be read is left out, and nothing else is.
pub proof fn report_is_made_of_the_answers(p: Profile, h: Seq<Exchange>, i: int)
    ensures
        info_talk(p, h, i) matches Some((j, Ok(text))) ==> (hwinfo_talk(p, h, i) matches Some(
            (k, Ok(hw)),
        ) && asked_for(h, i, k, p.codes.get_hwinfo, 104, hw) && hw.len() >= 104 && (media_talk(
            p,
            h,
            k,
        ) matches Some((l, media)) && l == j && (match media {
            Ok(name) => name_told(h, k, j, p.codes.get_storage_media, name) && text == joined(
                info_lines(hw, Some(name)),
                seq!['\n'],
            ),
            Err(_) => text == joined(info_lines(hw, None), seq!['\n']),
        }))),
{
    hardware_report_is_the_answer(p, h, i);
    reveal_strlit("\n");
    assert("\n"@ =~= seq!['\n']);
    match hwinfo_talk(p, h, i) {
        Some((k, Ok(hw))) => {
            media_name_is_the_answer(p, h, k);
        },
        _ => {},
    }
}

// ---------------------------------------------------------------------------------------
// Success
// ---------------------------------------------------------------------------------------
/// A question whose header went out and which the device answered has that answer; and so have the
/// commands that ask it, wherever the answer is long enough.
pub proof fn answered_questions_succeed(
    p: Profile,
    h: Seq<Exchange>,
    i: int,
    j: int,
    cmd: u8,
    usual: u32,
    what: Seq<char>,
    d: Seq<u8>,
)
    requires
        wrote_bytes(h, i, cmd_bytes(cmd, 0), CswPolicy::Required),
        answered(h, i + 1, j, usual as int, CswPolicy::Required, d),
    ensures
        query_talk(p, h, i, cmd, usual) == Some((j, Ok::<Seq<u8>, Seq<char>>(d))),
        usual == 4 && d.len() >= 4 ==> number_talk(p, h, i, cmd, what) == Some(
            (j, Ok::<u32, Seq<char>>(word(d, 0) as u32)),
        ),
        cmd == p.codes.get_block_size && usual == 4 && d.len() >= 4 ==> block_size_talk(p, h, i)
            == Some((j, Ok::<u32, Seq<char>>(word(d, 0) as u32))),
        cmd == p.codes.get_hwinfo && usual == 104 && d.len() >= 104 ==> hwinfo_talk(p, h, i)
            == Some((j, Ok::<Seq<u8>, Seq<char>>(d))),
        cmd == p.codes.get_storage_media && usual == 64 ==> (media_talk(p, h, i) matches Some(
            (k, Ok(name)),
        ) && k == j && filled_up(lossy_text(d), name, '\0')),
        cmd == p.codes.get_log_size && usual == 4 && d.len() >= 4 && word(d, 0) == 0 ==> log_talk(
            p,
            h,
            i,
        ) == Some((j, Ok::<Seq<char>, Seq<char>>(Seq::empty()))),
{
    responses_are_taken_as_sent(h, i + 1, j, cmd, usual, d);
    assert(header_talk(p, h, i, cmd, 0) == Some((i + 1, Ok::<(), Seq<char>>(()))));
    trailing_is_cut_off(lossy_text(d), '\0');
    if d.len() >= 4 {
        assert(le32_at(d, 0) == word(d, 0));
    }
}

/// A log that is not empty and was sent is given.
pub proof fn logs_that_were_sent_are_given(
    p: Profile,
    h: Seq<Exchange>,
    i: int,
    j: int,
    l: int,
    d: Seq<u8>,
    bytes: Seq<u8>,
)
    requires
        wrote_bytes(h, i, cmd_bytes(p.codes.get_log_size, 0), CswPolicy::Required),
        answered(h, i + 1, j, 4, CswPolicy::Required, d),
        d.len() >= 4,
        word(d, 0) > 0,
        wrote_bytes(h, j, cmd_bytes(p.codes.get_log_data, 0), CswPolicy::Required),
        answered(h, j + 1, l, word(d, 0), CswPolicy::Required, bytes),
    ensures
        log_talk(p, h, i) == Some((l, Ok::<Seq<char>, Seq<char>>(lossy_text(bytes)))),
{
    answered_questions_succeed(p, h, i, j, p.codes.get_log_size, 4, "Log size"@, d);
    answered_questions_succeed(
        p,
        h,
        j,
        l,
        p.codes.get_log_data,
        word(d, 0) as u32,
        ""@,
        bytes,
    );
}

/// A command whose header and data went out and which the device confirmed succeeds.
pub proof fn confirmed_orders_succeed(
    p: Profile,
    h: Seq<Exchange>,
    i: int,
    j: int,
    cmd: u8,
    payload: Seq<u8>,
    usual: u32,
    d: Seq<u8>,
)
    requires
        wrote_bytes(h, i, cmd_bytes(cmd, payload.len() as u32), CswPolicy::Required),
        wrote_bytes(h, i + 1, payload, CswPolicy::Required),
        answered(h, i + 2, j, usual as int, CswPolicy::Required, d),
    ensures
        order_talk(p, h, i, cmd, payload, usual, CswPolicy::Required) == Some(
            (j, Ok::<Seq<u8>, Seq<char>>(d)),
        ),
        cmd == p.codes.set_fwc_meta && usual == 0 ==> meta_talk(p, h, i, payload) == Some(
            (j, Ok::<(), Seq<char>>(())),
        ),
{
    responses_are_taken_as_sent(h, i + 2, j, cmd, usual, d);
    assert(header_talk(p, h, i, cmd, payload.len() as u32) == Some(
        (i + 1, Ok::<(), Seq<char>>(())),
    ));
}

/// A shell command that went out as its text and was confirmed succeeds.
pub proof fn confirmed_shell_commands_succeed(
    p: Profile,
    h: Seq<Exchange>,
    i: int,
    j: int,
    command: Seq<char>,
    b: Seq<u8>,
    d: Seq<u8>,
)
    requires
        encode_utf8(command).len() <= u32::MAX,
        is_shell_command(b, command),
        wrote_bytes(h, i, cmd_bytes(p.codes.run_shell_str, b.len() as u32), CswPolicy::Required),
        wrote_bytes(h, i + 1, b, CswPolicy::Required),
        answered(h, i + 2, j, 0, CswPolicy::Required, d),
    ensures
        shell_talk(p, h, i, command) == Some((j, Ok::<(), Seq<char>>(()))),
{
    let a = shell_bytes(command);
    shell_commands_are_sent_as_text(p, h, i, command);
    lemma_same_word(a, b, 0);
    assert forall|k: int| 0 <= k < a.len() implies a[k] == b[k] by {
        if k >= 4 {
            assert(a.skip(4)[k - 4] == b.skip(4)[k - 4]);
        }
    }
    assert(a =~= b);
    confirmed_orders_succeed(p, h, i, j, p.codes.run_shell_str, b, 0, d);
}

/// The end of an upgrade that was told is told, whether the device confirmed it, was gone before
/// it could, or did not answer; only a refusal is a failure.
pub proof fn told_ends_succeed(
    p: Profile,
    h: Seq<Exchange>,
    i: int,
    j: int,
    b: Seq<u8>,
    d: Seq<u8>,
    why: Seq<char>,
    csw: Seq<u8>,
)
    requires
        is_end_of_upgrade(b),
        wrote_bytes(h, i, cmd_bytes(p.codes.set_upg_end, 36), CswPolicy::Required),
        0 <= i + 1 < h.len(),
    ensures
        h[i + 1] == (Exchange::Write {
            payload: b,
            policy: CswPolicy::AllowMissing,
            outcome: Ok(None),
        }) ==> end_talk(p, h, i) == Some((i + 2, Ok::<(), Seq<char>>(()))),
        h[i + 1] == (Exchange::Write {
            payload: b,
            policy: CswPolicy::AllowMissing,
            outcome: Ok(Some(csw)),
        }) && answered(h, i + 2, j, 0, CswPolicy::AllowMissing, d) ==> end_talk(p, h, i) == Some(
            (j, Ok::<(), Seq<char>>(())),
        ),
        h[i + 1] == (Exchange::Write {
            payload: b,
            policy: CswPolicy::AllowMissing,
            outcome: Ok(Some(csw)),
        }) && i + 2 < h.len() && h[i + 2] == (Exchange::Read {
            len: 16,
            policy: CswPolicy::AllowMissing,
            outcome: Err(why),
        }) ==> end_talk(p, h, i) == Some((i + 3, Ok::<(), Seq<char>>(()))),
{
    let a = le32(32) + zeros(32);
    assert(le32(32) =~= seq![32u8, 0u8, 0u8, 0u8]);
    lemma_same_word(a, b, 0);
    assert forall|k: int| 0 <= k < a.len() implies a[k] == b[k] by {}
    assert(a =~= b);
    assert(header_talk(p, h, i, p.codes.set_upg_end, 36) == Some(
        (i + 1, Ok::<(), Seq<char>>(())),
    ));
    missing_responses_are_empty(h, i + 2, j, p.codes.set_upg_end, 0, d, why);
}

/// A mode that went out with what belongs to it and was confirmed is chosen.
pub proof fn confirmed_modes_are_chosen(
    p: Profile,
    h: Seq<Exchange>,
    i: int,
    j: int,
    mode: u8,
    d: Seq<u8>,
)
    requires
        wrote_bytes(h, i, cmd_bytes(p.codes.set_upg_cfg, 36), CswPolicy::Required),
        wrote_bytes(h, i + 1, seq![32u8, 0u8, 0u8, 0u8], CswPolicy::Required),
        wrote_bytes(h, i + 2, cfg_bytes(mode), CswPolicy::Required),
        answered(h, i + 3, j, 0, CswPolicy::Required, d),
    ensures
        cfg_talk(p, h, i, mode) == Some((j, Ok::<(), Seq<char>>(()))),
{
    configuration_is_laid_out(mode);
    assert(le32(32) =~= seq![32u8, 0u8, 0u8, 0u8]);
    responses_are_taken_as_sent(h, i + 3, j, p.codes.set_upg_cfg, 0, d);
    assert(header_talk(p, h, i, p.codes.set_upg_cfg, 36) == Some(
        (i + 1, Ok::<(), Seq<char>>(())),
    ));
    assert((cfg_bytes(mode).len() + 4) as u32 == 36);
}

// ---------------------------------------------------------------------------------------
// Failures
// ---------------------------------------------------------------------------------------
/// Whether the exchange at `i` is a write of `bytes` that failed with `why`.
pub open spec fn write_failed(
    h: Seq<Exchange>,
    i: int,
    bytes: Seq<u8>,
    policy: CswPolicy,
    why: Seq<char>,
) -> bool {
    &&& 0 <= i < h.len()
    &&& h[i] == (Exchange::Write { payload: bytes, policy, outcome: Err(why) })
}

/// Whether the exchange at `i` is a read of `len` bytes that failed with `why`.
pub open spec fn read_failed(h: Seq<Exchange>, i: int, len: int, why: Seq<char>) -> bool {
    &&& 0 <= i < h.len()
    &&& h[i] matches Exchange::Read { len: n, policy, outcome }
    &&& n == len
    &&& policy == CswPolicy::Required
    &&& outcome == Err::<Seq<u8>, Seq<char>>(why)
}

/// Whether the error says, from `at` on, that the pipe was closed or that not a byte of the
/// wrapper went out.
pub open spec fn refused_from(why: Seq<char>, at: int) -> bool {
    0 <= at && ((at + 4 <= why.len() && why.subrange(at, at + 4) == "Pipe"@) || (at + 25
        <= why.len() && why.subrange(at, at + 25) == "Bulk write failed at 0/31"@))
}

/// Whether the error is one after which a header is worth another try.
pub open spec fn link_refused(why: Seq<char>) -> bool {
    exists|at: int| #[trigger] refused_from(why, at)
}

proof fn lemma_link_refused(why: Seq<char>)
    ensures
        link_refused(why) == header_worth_repeating(why),
{
    let pipe = "Pipe"@;
    let bulk = "Bulk write failed at 0/31"@;
    reveal_strlit("Pipe");
    reveal_strlit("Bulk write failed at 0/31");
    if link_refused(why) {
        let at = choose|at: int| #[trigger] refused_from(why, at);
        assert(stands_at(why, pipe, at) || stands_at(why, bulk, at));
    }
    if mentions(why, pipe) {
        let at = choose|at: int| stands_at(why, pipe, at);
        assert(refused_from(why, at));
    }
    if mentions(why, bulk) {
        let at = choose|at: int| stands_at(why, bulk, at);
        assert(refused_from(why, at));
    }
}

/// A header that does not get through fails with the link's own words; only where headers are
/// repeated and the link refused this one outright is the device waited for, ten seconds at most,
/// and the header written once more.
pub proof fn refused_headers_are_tried_again(
    p: Profile,
    h: Seq<Exchange>,
    i: int,
    cmd: u8,
    len: u32,
    why: Seq<char>,
    again: Seq<char>,
)
    requires
        write_failed(h, i, cmd_bytes(cmd, len), CswPolicy::Required, why),
    ensures
        !(p.repeat_headers && link_refused(why)) ==> header_talk(p, h, i, cmd, len) == Some(
            (i + 1, Err::<(), Seq<char>>(why)),
        ),
        p.repeat_headers && link_refused(why) ==> {
            &&& header_talk(p, h, i, cmd, len) is Some ==> i + 1 < h.len() && (h[i + 1] matches
                Exchange::Reconnect { timeout, .. } && timeout == 10_000)
            &&& i + 1 < h.len() && h[i + 1] == (Exchange::Reconnect {
                timeout: 10_000,
                outcome: Err(again),
            }) ==> header_talk(p, h, i, cmd, len) == Some((i + 2, Err::<(), Seq<char>>(again)))
            &&& i + 1 < h.len() && h[i + 1] == (Exchange::Reconnect {
                timeout: 10_000,
                outcome: Ok(()),
            }) && write_failed(h, i + 2, cmd_bytes(cmd, len), CswPolicy::Required, again)
                ==> header_talk(p, h, i, cmd, len) == Some((i + 3, Err::<(), Seq<char>>(again)))
        },
{
    lemma_link_refused(why);
}

/// Where a command fails on the way, its error is the link's own.
pub proof fn link_errors_are_passed_on(
    p: Profile,
    h: Seq<Exchange>,
    i: int,
    j: int,
    cmd: u8,
    payload: Seq<u8>,
    usual: u32,
    policy: CswPolicy,
    why: Seq<char>,
)
    ensures
        header_talk(p, h, i, cmd, 0) == Some((j, Err::<(), Seq<char>>(why))) ==> query_talk(
            p,
            h,
            i,
            cmd,
            usual,
        ) == Some((j, Err::<Seq<u8>, Seq<char>>(why))),
        header_talk(p, h, i, cmd, payload.len() as u32) == Some((j, Err::<(), Seq<char>>(why)))
            ==> order_talk(p, h, i, cmd, payload, usual, policy) == Some(
            (j, Err::<Seq<u8>, Seq<char>>(why)),
        ),
        header_talk(p, h, i, cmd, payload.len() as u32) == Some((j, Ok::<(), Seq<char>>(())))
            && write_failed(h, j, payload, policy, why) ==> order_talk(
            p,
            h,
            i,
            cmd,
            payload,
            usual,
            policy,
        ) == Some((j + 1, Err::<Seq<u8>, Seq<char>>(why))),
        write_failed(h, i, payload, policy, why) ==> chunk_talk(h, i, payload, policy) == Some(
            (i + 1, Err::<(), Seq<char>>(why)),
        ),
        read_failed(h, i, 16, why) ==> response_talk(h, i, cmd, usual, CswPolicy::Required)
            == Some((i + 1, Err::<Seq<u8>, Seq<char>>(why))),
{
}

/// A response that is too short, or reports a failure, makes the command fail, and the error says
/// which command it was, with what status, and how the response began.
pub proof fn refusals_are_told(
    h: Seq<Exchange>,
    i: int,
    cmd: u8,
    usual: u32,
    policy: CswPolicy,
    d: Seq<u8>,
)
    requires
        read_bytes(h, i, 16, d, policy),
        !is_good_response(d),
    ensures
        response_talk(h, i, cmd, usual, policy) == Some(
            (
                i + 1,
                Err::<Seq<u8>, Seq<char>>(
                    if d.len() < 16 {
                        "Response too short"@
                    } else {
                        "Command 0x"@ + hex_wide(cmd as nat, 2) + " failed, status: "@ + dec(
                            d[7] as nat,
                        ) + ", magic=0x"@ + hex_wide(word(d, 0) as nat, 8)
                    },
                ),
            ),
        ),
{
    if d.len() >= 16 {
        lemma_good_response(d);
        assert(le32_at(d, 0) == word(d, 0));
    }
}

/// An answer that is too short for what was asked is no answer.
pub proof fn short_answers_are_refused(
    p: Profile,
    h: Seq<Exchange>,
    i: int,
    j: int,
    cmd: u8,
    what: Seq<char>,
    d: Seq<u8>,
)
    ensures
        query_talk(p, h, i, cmd, 4) == Some((j, Ok::<Seq<u8>, Seq<char>>(d))) && d.len() < 4
            ==> number_talk(p, h, i, cmd, what) == Some(
            (
                j,
                Err::<u32, Seq<char>>(
                    what + " response too short: "@ + dec(d.len()) + " bytes"@,
                ),
            ),
        ),
        query_talk(p, h, i, p.codes.get_hwinfo, 104) == Some((j, Ok::<Seq<u8>, Seq<char>>(d)))
            && d.len() < 104 ==> hwinfo_talk(p, h, i) == Some(
            (
                j,
                Err::<Seq<u8>, Seq<char>>(
                    "Failed to parse HWINFO ("@ + dec(d.len()) + " payload bytes)"@,
                ),
            ),
        ),
{
}

/// What a command gives to its caller is what came out of its conversation, text for text.
pub proof fn outcomes_are_given_whole(
    text: Result<String, String>,
    number: Result<u32, String>,
    bytes: Result<Vec<u8>, String>,
    end: Result<(), String>,
)
    ensures
        match text {
            Ok(s) => text_outcome(text) == Ok::<Seq<char>, Seq<char>>(s@),
            Err(e) => text_outcome(text) == Err::<Seq<char>, Seq<char>>(e@),
        },
        match number {
            Ok(n) => number_outcome(number) == Ok::<u32, Seq<char>>(n),
            Err(e) => number_outcome(number) == Err::<u32, Seq<char>>(e@),
        },
        match bytes {
            Ok(b) => read_outcome(bytes) == Ok::<Seq<u8>, Seq<char>>(b@),
            Err(e) => read_outcome(bytes) == Err::<Seq<u8>, Seq<char>>(e@),
        },
        match end {
            Ok(()) => done(end) == Ok::<(), Seq<char>>(()),
            Err(e) => done(end) == Err::<(), Seq<char>>(e@),
        },
{
}

/// What a device reports on itself and on a command stands at these places of its bytes.
pub proof fn reports_hold_these_fields(b: Seq<u8>, k: int)
    ensures
        b.len() >= 104 && 0 <= k < 4 ==> hw_chip_id(b).len() == 4 && hw_chip_id(b)[k] == word(
            b,
            48 + 4 * k,
        ),
        b.len() >= 16 ==> (resp_ok(b) <==> is_good_response(b)),
        valid_utf8(b.take(8)) ==> filled_up(decode_utf8(b.take(8)), hw_magic(b), '\0'),
        !valid_utf8(b.take(8)) ==> hw_magic(b).len() == 0,
{
    if b.len() >= 16 {
        lemma_good_response(b);
    }
    if b.len() >= 104 {
        assert(le32_at(b, 48) == word(b, 48));
        assert(le32_at(b, 52) == word(b, 52));
        assert(le32_at(b, 56) == word(b, 56));
        assert(le32_at(b, 60) == word(b, 60));
    }
    trailing_is_cut_off(decode_utf8(b.take(8)), '\0');
}

} // verus!
