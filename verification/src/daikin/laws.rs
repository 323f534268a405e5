//! What holds of replies and commands as a whole.

use vstd::prelude::*;

use super::mode;
use super::{CommandView, Params};
use crate::encoding;
use crate::number;
use crate::single::Single;
use crate::text;

verus! {

// --- What is written can be read back ---

/// The fields of a unit that has accepted a write.
pub open spec fn stored(fields: Map<Seq<char>, Seq<char>>, params: Params) -> Map<
    Seq<char>,
    Seq<char>,
> {
    fields.insert("pow"@, params.pow).insert("mode"@, params.mode).insert(
        "stemp"@,
        params.stemp,
    ).insert("shum"@, params.shum).insert("f_rate"@, params.f_rate).insert("f_dir"@, params.f_dir)
}

/// The fields of a unit after a command was applied to it.
pub open spec fn after_command(
    fields: Map<Seq<char>, Seq<char>>,
    command: CommandView,
) -> Map<Seq<char>, Seq<char>> {
    stored(fields, super::commanded(super::current_params(fields), command))
}

proof fn lemma_keys_differ()
    ensures
        "pow"@ != "mode"@,
        "pow"@ != "stemp"@,
        "pow"@ != "shum"@,
        "pow"@ != "f_rate"@,
        "pow"@ != "f_dir"@,
        "mode"@ != "stemp"@,
        "mode"@ != "shum"@,
        "mode"@ != "f_rate"@,
        "mode"@ != "f_dir"@,
        "stemp"@ != "shum"@,
        "stemp"@ != "f_rate"@,
        "stemp"@ != "f_dir"@,
        "shum"@ != "f_rate"@,
        "shum"@ != "f_dir"@,
        "f_rate"@ != "f_dir"@,
{
    reveal_strlit("pow");
    reveal_strlit("mode");
    reveal_strlit("stemp");
    reveal_strlit("shum");
    reveal_strlit("f_rate");
    reveal_strlit("f_dir");
    assert("stemp"@.len() != "shum"@.len());
    assert("f_rate"@.len() != "f_dir"@.len());
    assert("mode"@[0] != "shum"@[0]);
    assert("pow"@[0] != "mode"@[0]);
    assert("stemp"@[0] != "f_dir"@[0]);
}

/// A unit that has accepted a write reports the parameters that were written.
pub proof fn law_stored_params_read_back(fields: Map<Seq<char>, Seq<char>>, params: Params)
    ensures
        super::current_params(stored(fields, params)) == params,
{
    lemma_keys_differ();
    assert(super::current_params(stored(fields, params)) =~= params);
}

/// A write leaves alone every field that is not one of its parameters.
pub proof fn law_write_keeps_other_fields(
    fields: Map<Seq<char>, Seq<char>>,
    params: Params,
    key: Seq<char>,
)
    requires
        key != "pow"@,
        key != "mode"@,
        key != "stemp"@,
        key != "shum"@,
        key != "f_rate"@,
        key != "f_dir"@,
    ensures
        stored(fields, params).contains_key(key) == fields.contains_key(key),
        fields.contains_key(key) ==> stored(fields, params)[key] == fields[key],
{
}

/// A command changes the parameter that it names and no other, except that a
/// change of mode replaces a setpoint or a humidity that the new mode could
/// not work with.
pub proof fn law_command_keeps_other_params(params: Params, command: CommandView)
    ensures
        ({
            let after = super::commanded(params, command);
            &&& !(command is Power) ==> after.pow == params.pow
            &&& !(command is Mode) ==> after.mode == params.mode
            &&& !(command is FanRate) ==> after.f_rate == params.f_rate
            &&& !(command is FanDir) ==> after.f_dir == params.f_dir
            &&& !(command is Mode) ==> after.shum == params.shum
            &&& !(command is Mode || command is Temperature) ==> after.stemp == params.stemp
            &&& command is Mode && number::is_fraction_text(params.stemp) ==> after.stemp
                == params.stemp
            &&& command is Mode && number::unsigned_value(params.shum, 0xffff_ffff) is Some
                ==> after.shum == params.shum
        }),
{
}

/// What a command sets is what the unit reports once it has accepted it.
pub proof fn law_command_reads_back(fields: Map<Seq<char>, Seq<char>>, command: CommandView)
    ensures
        ({
            let after = after_command(fields, command);
            match command {
                CommandView::Power(on) => super::power_field(after) == on,
                CommandView::Mode(m) => super::byte_field(after, "mode"@) == m,
                CommandView::Temperature(t) => super::fraction_field(after, "stemp"@) == Some(
                    t.one_decimal_text(),
                ),
                CommandView::FanRate(rate) => super::field_or(after, "f_rate"@, "A"@) == rate,
                CommandView::FanDir(dir) => super::byte_field(after, "f_dir"@) == dir,
            }
        }),
{
    lemma_keys_differ();
    match command {
        CommandView::Power(on) => {
            reveal_strlit("0");
            reveal_strlit("1");
            assert("0"@[0] != "1"@[0]);
        },
        CommandView::Mode(m) => {
            number::law_unsigned_roundtrip(m as nat, 0xff);
        },
        CommandView::Temperature(t) => {
            lemma_one_decimal_is_fraction(t);
        },
        CommandView::FanRate(rate) => {},
        CommandView::FanDir(dir) => {
            number::law_unsigned_roundtrip(dir as nat, 0xff);
        },
    }
}

/// A unit switched to a mode with a setpoint has a numeric one, and a numeric
/// humidity, whatever it reported before.
pub proof fn law_setpoint_mode_has_a_setpoint(fields: Map<Seq<char>, Seq<char>>, m: u8)
    requires
        mode::is_setpoint_mode(m),
    ensures
        ({
            let after = after_command(fields, CommandView::Mode(m));
            &&& super::fraction_field(after, "stemp"@) is Some
            &&& number::unsigned_value(super::field_or(after, "shum"@, "0"@), 0xffff_ffff) is Some
        }),
{
    lemma_keys_differ();
    reveal_strlit("22.0");
    reveal_strlit("0");
    let t = "22.0"@;
    reveal_with_fuel(number::digits_len, 4);
    assert(number::without_sign(t) == t);
    assert(t.drop_first().drop_first()[0] == '.');
    assert(number::digits_len(t) == 2);
    assert(t.skip(2).skip(1).drop_first() == Seq::<char>::empty());
    assert(number::digits_len(t.skip(2).skip(1)) == 1);
    assert(number::is_unsigned_fraction(t));
    let z = "0"@;
    assert(z.drop_last() == Seq::<char>::empty());
    reveal_with_fuel(number::digits_value, 2);
    assert(number::unsigned_value(z, 0xffff_ffff) is Some);
}

/// Applying the same command twice is the same as applying it once.
pub proof fn law_command_is_idempotent(fields: Map<Seq<char>, Seq<char>>, command: CommandView)
    ensures
        after_command(after_command(fields, command), command) == after_command(fields, command),
{
    let before = super::current_params(fields);
    let once = super::commanded(before, command);
    law_stored_params_read_back(fields, once);
    if let CommandView::Mode(m) = command {
        if mode::is_setpoint_mode(m) {
            law_setpoint_mode_has_a_setpoint(fields, m);
            lemma_keys_differ();
        }
    }
    assert(super::commanded(once, command) =~= once);
    assert(stored(stored(fields, once), once) =~= stored(fields, once));
}

/// Leading digits are counted up to the first character that is none.
proof fn lemma_digits_len(digits: Seq<char>, rest: Seq<char>)
    requires
        number::all_digits(digits),
        rest.len() > 0 ==> !number::is_digit(rest[0]),
    ensures
        number::digits_len(digits + rest) == digits.len(),
    decreases digits.len(),
{
    let all = digits + rest;
    if digits.len() > 0 {
        let fewer = digits.drop_first();
        assert forall|i: int| 0 <= i < fewer.len() implies number::is_digit(#[trigger] fewer[i]) by {
            assert(fewer[i] == digits[i + 1]);
        }
        lemma_digits_len(fewer, rest);
        assert(number::is_digit(digits[0]));
        assert(all[0] == digits[0]);
        assert(all.drop_first() == fewer + rest);
    } else {
        assert(all == rest);
    }
}

/// A printed number has the shape of one.
proof fn lemma_one_decimal_is_fraction(t: Single)
    ensures
        number::is_fraction_text(t.one_decimal_text()),
{
    let printed = t.one_decimal_text();
    if t.nan() {
        reveal_strlit("NaN");
        reveal_strlit("nan");
        assert(number::without_sign(printed) == printed);
        assert(number::lowered(printed) == "nan"@);
    } else if t.infinite() {
        reveal_strlit("inf");
        assert(number::without_sign(printed) == "inf"@);
        assert(number::lowered("inf"@) == "inf"@);
    } else {
        let whole = number::decimal_text(t.tenths() / 10);
        let digit = number::digit_char(t.tenths() % 10);
        let point = seq!['.', digit];
        number::lemma_decimal_text(t.tenths() / 10);
        assert(number::is_digit(whole[0]));
        let unsigned = whole + point;
        assert(number::without_sign(printed) == unsigned);
        lemma_digits_len(whole, point);
        assert(unsigned.skip(whole.len() as int) == point);
        assert(number::is_digit(digit));
        assert(number::all_digits(seq![digit]));
        lemma_digits_len(seq![digit], Seq::empty());
        assert(seq![digit] + Seq::<char>::empty() == seq![digit]);
        assert(point.skip(1) == seq![digit]);
        assert(point.skip(1).skip(1) == Seq::<char>::empty());
        assert(number::is_unsigned_fraction(unsigned));
    }
}

// --- A reply is read as it was meant ---

/// `pieces` with `sep` between them.
pub open spec fn joined(pieces: Seq<Seq<char>>, sep: char) -> Seq<char>
    decreases pieces.len(),
{
    if pieces.len() == 0 {
        Seq::empty()
    } else if pieces.len() == 1 {
        pieces[0]
    } else {
        pieces[0] + seq![sep] + joined(pieces.drop_first(), sep)
    }
}

/// A pair as a unit writes it.
pub open spec fn pair_text(pair: (Seq<char>, Seq<char>)) -> Seq<char> {
    pair.0 + seq!['='] + pair.1
}

/// The body of a reply with the given keys and percent-encoded values.
pub open spec fn body_text(pairs: Seq<(Seq<char>, Seq<char>)>) -> Seq<char> {
    joined(pairs.map_values(|p: (Seq<char>, Seq<char>)| pair_text(p)), ',')
}

/// Whether a pair can stand in a reply: a key that is not blank at either end,
/// and no separator where it would be mistaken for one.
pub open spec fn is_plain_pair(pair: (Seq<char>, Seq<char>)) -> bool {
    &&& pair.0.len() > 0
    &&& text::trimmed(pair.0) == pair.0
    &&& !pair.0.contains('=')
    &&& !pair.0.contains(',')
    &&& !pair.1.contains(',')
}

/// `fields` with every key and the value that its percent-encoded text stands
/// for.
pub open spec fn with_fields(
    fields: Map<Seq<char>, Seq<char>>,
    pairs: Seq<(Seq<char>, Seq<char>)>,
) -> Map<Seq<char>, Seq<char>>
    decreases pairs.len(),
{
    if pairs.len() == 0 {
        fields
    } else {
        with_fields(
            fields.insert(pairs[0].0, encoding::percent_text(pairs[0].1)),
            pairs.drop_first(),
        )
    }
}

/// Splitting gives back what was joined.
pub proof fn law_split_undoes_join(pieces: Seq<Seq<char>>, sep: char)
    requires
        pieces.len() > 0,
        forall|i: int| 0 <= i < pieces.len() ==> !(#[trigger] pieces[i]).contains(sep),
    ensures
        text::split_on(joined(pieces, sep), sep) == pieces,
    decreases pieces.len(),
{
    let all = joined(pieces, sep);
    let first = pieces[0];
    assert(!first.contains(sep));
    assert forall|i: int| 0 <= i < first.len() implies all[i] != sep by {
        assert(first.contains(first[i]));
        assert(all[i] == first[i]);
    }
    text::lemma_until_unique(all, sep, first.len() as int);
    if pieces.len() == 1 {
        assert(text::split_on(all, sep) =~= pieces);
    } else {
        let rest = pieces.drop_first();
        assert forall|i: int| 0 <= i < rest.len() implies !(#[trigger] rest[i]).contains(sep) by {
            assert(rest[i] == pieces[i + 1]);
        }
        law_split_undoes_join(rest, sep);
        assert(all.take(first.len() as int) == first);
        assert(all.skip(first.len() as int + 1) == joined(rest, sep));
        assert(text::split_on(all, sep) =~= pieces);
    }
}

/// Trimming leaves nothing out of what is not blank at either end.
proof fn lemma_trimmed_fixed(s: Seq<char>)
    ensures
        s.len() > 0 && !text::is_white(s[0]) && !text::is_white(s.last()) ==> text::trimmed(s) == s,
        s.len() > 0 && text::trimmed(s) == s ==> !text::is_white(s[0]),
{
    if s.len() > 0 && text::is_white(s[0]) {
        lemma_trim_start_len(s.drop_first());
        lemma_trim_end_len(text::trim_start(s));
    }
}

proof fn lemma_trim_start_len(s: Seq<char>)
    ensures
        text::trim_start(s).len() <= s.len(),
    decreases s.len(),
{
    if s.len() > 0 && text::is_white(s[0]) {
        lemma_trim_start_len(s.drop_first());
    }
}

proof fn lemma_trim_end_len(s: Seq<char>)
    ensures
        text::trim_end(s).len() <= s.len(),
    decreases s.len(),
{
    if s.len() > 0 && text::is_white(s.last()) {
        lemma_trim_end_len(s.drop_last());
    }
}

/// A plain pair is read as its key and its value.
proof fn lemma_plain_pair(pair: (Seq<char>, Seq<char>))
    requires
        is_plain_pair(pair),
    ensures
        super::parsed_pair(pair_text(pair)) == Some((pair.0, encoding::percent_text(pair.1))),
{
    let all = pair_text(pair);
    assert forall|i: int| 0 <= i < pair.0.len() implies all[i] != '=' by {
        assert(pair.0.contains(pair.0[i]));
        assert(all[i] == pair.0[i]);
    }
    text::lemma_until_unique(all, '=', pair.0.len() as int);
    assert(all.take(pair.0.len() as int) == pair.0);
    assert(all.skip(pair.0.len() as int + 1) == pair.1);
}

proof fn lemma_plain_pairs(
    fields: Map<Seq<char>, Seq<char>>,
    pairs: Seq<(Seq<char>, Seq<char>)>,
)
    requires
        forall|i: int| 0 <= i < pairs.len() ==> is_plain_pair(#[trigger] pairs[i]),
    ensures
        super::with_pairs(
            fields,
            pairs.map_values(|p: (Seq<char>, Seq<char>)| pair_text(p)),
        ) == with_fields(fields, pairs),
    decreases pairs.len(),
{
    let pieces = pairs.map_values(|p: (Seq<char>, Seq<char>)| pair_text(p));
    if pairs.len() > 0 {
        let rest = pairs.drop_first();
        lemma_plain_pair(pairs[0]);
        assert forall|i: int| 0 <= i < rest.len() implies is_plain_pair(#[trigger] rest[i]) by {
            assert(rest[i] == pairs[i + 1]);
        }
        lemma_plain_pairs(
            fields.insert(pairs[0].0, encoding::percent_text(pairs[0].1)),
            rest,
        );
        assert(pieces.drop_first() == rest.map_values(
            |p: (Seq<char>, Seq<char>)| pair_text(p),
        ));
    }
}

/// The last character of joined pieces is that of the last one.
proof fn lemma_joined_ends(pieces: Seq<Seq<char>>, sep: char)
    requires
        pieces.len() > 0,
        pieces[0].len() > 0,
        pieces.last().len() > 0,
    ensures
        joined(pieces, sep).len() > 0,
        joined(pieces, sep)[0] == pieces[0][0],
        joined(pieces, sep).last() == pieces.last().last(),
    decreases pieces.len(),
{
    if pieces.len() > 1 {
        let rest = pieces.drop_first();
        lemma_joined_last(rest, sep);
    }
}

proof fn lemma_joined_last(pieces: Seq<Seq<char>>, sep: char)
    requires
        pieces.len() > 0,
        pieces.last().len() > 0,
    ensures
        joined(pieces, sep).len() > 0,
        joined(pieces, sep).last() == pieces.last().last(),
    decreases pieces.len(),
{
    if pieces.len() > 1 {
        lemma_joined_last(pieces.drop_first(), sep);
    }
}

/// A reply made of plain pairs is read as those pairs. The body is trimmed as
/// a whole, so its last value must not end in white space.
pub proof fn law_reply_is_read_back(pairs: Seq<(Seq<char>, Seq<char>)>)
    requires
        pairs.len() > 0,
        forall|i: int| 0 <= i < pairs.len() ==> is_plain_pair(#[trigger] pairs[i]),
        pairs.last().1.len() > 0 ==> !text::is_white(pairs.last().1.last()),
    ensures
        super::parsed(body_text(pairs)) == with_fields(Map::empty(), pairs),
{
    let pieces = pairs.map_values(|p: (Seq<char>, Seq<char>)| pair_text(p));
    let body = body_text(pairs);
    assert forall|i: int| 0 <= i < pieces.len() implies !(#[trigger] pieces[i]).contains(',') by {
        assert(is_plain_pair(pairs[i]));
        let pair = pairs[i];
        if pieces[i].contains(',') {
            let j = choose|j: int| 0 <= j < pieces[i].len() && pieces[i][j] == ',';
            if j < pair.0.len() {
                assert(pair.0[j] == ',');
            } else if j > pair.0.len() {
                assert(pair.1[j - pair.0.len() - 1] == ',');
            }
        }
    }
    law_split_undoes_join(pieces, ',');
    assert(is_plain_pair(pairs[0]));
    lemma_trimmed_fixed(pairs[0].0);
    lemma_joined_ends(pieces, ',');
    assert(!text::is_white('='));
    assert(!text::is_white(body.last())) by {
        let last = pairs.last();
        assert(pieces.last() == pair_text(last));
        if last.1.len() > 0 {
            assert(pair_text(last).last() == last.1.last());
        } else {
            assert(pair_text(last).last() == '=');
        }
    }
    lemma_trimmed_fixed(body);
    lemma_plain_pairs(Map::empty(), pairs);
}

// --- Replies ---

/// A request counts as done only where the unit said so: over HTTP with status
/// 200, and in a body with `ret=OK`.
pub proof fn law_success_is_reported_by_the_unit(
    host: Seq<char>,
    path: Seq<char>,
    io: super::ExchangeView,
)
    requires
        super::outcome(host, path, io) is Ok,
    ensures
        io matches super::ExchangeView::Reply(raw) && super::http_reply(raw) is Body,
        super::outcome(host, path, io)->Ok_0.contains_key("ret"@),
        super::outcome(host, path, io)->Ok_0["ret"@] == "OK"@,
{
}

// --- Requests ---

/// A request is five lines: what is asked for, the host under its canonical
/// header, what is accepted, that the connection is to be closed, and an empty
/// one.
#[verifier::spinoff_prover]
pub proof fn law_request_lines(host: Seq<char>, path: Seq<char>)
    ensures
        ({
            let end = seq!['\r', '\n'];
            super::request_text(host, path) == ("GET "@ + path + " HTTP/1.1"@ + end) + (
            "Host: "@ + host + end) + ("Accept: */*"@ + end) + ("Connection: close"@ + end) + end
        }),
{
    let end = seq!['\r', '\n'];
    reveal_strlit(" HTTP/1.1\r\nHost: ");
    reveal_strlit(" HTTP/1.1");
    reveal_strlit("Host: ");
    reveal_strlit("\r\nAccept: */*\r\nConnection: close\r\n\r\n");
    reveal_strlit("Accept: */*");
    reveal_strlit("Connection: close");
    assert(" HTTP/1.1\r\nHost: "@ == " HTTP/1.1"@ + end + "Host: "@);
    assert("\r\nAccept: */*\r\nConnection: close\r\n\r\n"@ == end + "Accept: */*"@ + end
        + "Connection: close"@ + end + end);
    assert(super::request_text(host, path) == ("GET "@ + path + " HTTP/1.1"@ + end) + ("Host: "@
        + host + end) + ("Accept: */*"@ + end) + ("Connection: close"@ + end) + end);
}

/// The pairs in the query of a request path, in order: what stands between the
/// `&` after the first `?`, each split at its first `=`.
pub open spec fn query_pairs(path: Seq<char>) -> Seq<(Seq<char>, Seq<char>)> {
    text::split_on(path.skip(text::until(path, '?') as int + 1), '&').map_values(
        |p: Seq<char>|
            (p.take(text::until(p, '=') as int), p.skip(text::until(p, '=') as int + 1)),
    )
}

/// A pair of a query.
pub open spec fn query_pair(key: Seq<char>, value: Seq<char>) -> Seq<char> {
    key + seq!['='] + value
}

proof fn lemma_query_pair(key: Seq<char>, value: Seq<char>)
    requires
        !value.contains('&'),
        forall|i: int| 0 <= i < key.len() ==> key[i] != '=' && key[i] != '&',
    ensures
        ({
            let p = query_pair(key, value);
            &&& text::until(p, '=') == key.len()
            &&& p.take(key.len() as int) == key
            &&& p.skip(key.len() as int + 1) == value
            &&& !p.contains('&')
        }),
{
    let p = query_pair(key, value);
    assert forall|i: int| 0 <= i < key.len() implies p[i] != '=' by {
        assert(p[i] == key[i]);
    }
    text::lemma_until_unique(p, '=', key.len() as int);
    assert(p.take(key.len() as int) == key);
    assert(p.skip(key.len() as int + 1) == value);
    if p.contains('&') {
        let j = choose|j: int| 0 <= j < p.len() && p[j] == '&';
        if j < key.len() {
            assert(key[j] == '&');
        } else if j > key.len() {
            assert(value[j - key.len() - 1] == '&');
        }
    }
}

proof fn lemma_joined_push(pieces: Seq<Seq<char>>, sep: char, piece: Seq<char>)
    requires
        pieces.len() > 0,
    ensures
        joined(pieces.push(piece), sep) == joined(pieces, sep) + (seq![sep] + piece),
    decreases pieces.len(),
{
    let more = pieces.push(piece);
    if pieces.len() == 1 {
        assert(more.drop_first() == seq![piece]);
        assert(joined(more.drop_first(), sep) == piece);
        assert(pieces[0] + seq![sep] + piece == pieces[0] + (seq![sep] + piece));
    } else {
        let rest = pieces.drop_first();
        assert(more.drop_first() == rest.push(piece));
        lemma_joined_push(rest, sep, piece);
        let tail = seq![sep] + piece;
        assert(pieces[0] + seq![sep] + (joined(rest, sep) + tail) == pieces[0] + seq![sep]
            + joined(rest, sep) + tail);
    }
}

proof fn lemma_next_pair(
    prefix: Seq<char>,
    pieces: Seq<Seq<char>>,
    literal: Seq<char>,
    key: Seq<char>,
    value: Seq<char>,
)
    requires
        pieces.len() > 0,
        literal =~= seq!['&'] + key + seq!['='],
    ensures
        prefix + joined(pieces, '&') + literal + value == prefix + joined(
            pieces.push(query_pair(key, value)),
            '&',
        ),
{
    let q = joined(pieces, '&');
    let p = query_pair(key, value);
    lemma_joined_push(pieces, '&', p);
    assert(literal + value == seq!['&'] + p);
    assert(prefix + q + literal + value == prefix + (q + (literal + value)));
}

/// The pairs that are written for `params`.
pub open spec fn written_pairs(params: Params) -> Seq<Seq<char>> {
    seq![
        query_pair("pow"@, params.pow),
        query_pair("mode"@, params.mode),
        query_pair("stemp"@, params.stemp),
        query_pair("shum"@, params.shum),
        query_pair("f_rate"@, params.f_rate),
        query_pair("f_dir"@, params.f_dir),
    ]
}

#[verifier::spinoff_prover]
proof fn lemma_literals()
    ensures
        "/aircon/set_control_info?pow="@ == "/aircon/set_control_info"@ + seq!['?'] + "pow"@
            + seq!['='],
        "&mode="@ == seq!['&'] + "mode"@ + seq!['='],
        "&stemp="@ == seq!['&'] + "stemp"@ + seq!['='],
        "&shum="@ == seq!['&'] + "shum"@ + seq!['='],
        "&f_rate="@ == seq!['&'] + "f_rate"@ + seq!['='],
        "&f_dir="@ == seq!['&'] + "f_dir"@ + seq!['='],
{
    reveal_strlit("/aircon/set_control_info?pow=");
    reveal_strlit("/aircon/set_control_info");
    reveal_strlit("&mode=");
    reveal_strlit("&stemp=");
    reveal_strlit("&shum=");
    reveal_strlit("&f_rate=");
    reveal_strlit("&f_dir=");
    reveal_strlit("pow");
    reveal_strlit("mode");
    reveal_strlit("stemp");
    reveal_strlit("shum");
    reveal_strlit("f_rate");
    reveal_strlit("f_dir");
}

#[verifier::spinoff_prover]
proof fn lemma_path_is_joined(params: Params)
    ensures
        super::write_path(params) == "/aircon/set_control_info"@ + seq!['?'] + joined(
            written_pairs(params),
            '&',
        ),
{
    lemma_literals();
    let prefix = "/aircon/set_control_info"@ + seq!['?'];
    let p0 = query_pair("pow"@, params.pow);
    let key = "pow"@ + seq!['='];
    assert("/aircon/set_control_info?pow="@ == prefix + key);
    assert(prefix + key + params.pow == prefix + p0);
    let pieces0 = seq![p0];
    assert(joined(pieces0, '&') == p0);
    lemma_next_pair(prefix, pieces0, "&mode="@, "mode"@, params.mode);
    let pieces1 = pieces0.push(query_pair("mode"@, params.mode));
    lemma_next_pair(prefix, pieces1, "&stemp="@, "stemp"@, params.stemp);
    let pieces2 = pieces1.push(query_pair("stemp"@, params.stemp));
    lemma_next_pair(prefix, pieces2, "&shum="@, "shum"@, params.shum);
    let pieces3 = pieces2.push(query_pair("shum"@, params.shum));
    lemma_next_pair(prefix, pieces3, "&f_rate="@, "f_rate"@, params.f_rate);
    let pieces4 = pieces3.push(query_pair("f_rate"@, params.f_rate));
    lemma_next_pair(prefix, pieces4, "&f_dir="@, "f_dir"@, params.f_dir);
    let pieces = pieces4.push(query_pair("f_dir"@, params.f_dir));
    assert(pieces == written_pairs(params));
}

#[verifier::spinoff_prover]
proof fn lemma_start_of_path(query: Seq<char>)
    ensures
        ({
            let path = "/aircon/set_control_info"@ + seq!['?'] + query;
            let at = text::until(path, '?') as int;
            &&& path.take(at) == "/aircon/set_control_info"@
            &&& path.skip(at + 1) == query
        }),
{
    reveal_strlit("/aircon/set_control_info");
    let start = "/aircon/set_control_info"@;
    let path = start + seq!['?'] + query;
    assert forall|i: int| 0 <= i < start.len() implies path[i] != '?' by {
        assert(path[i] == start[i]);
    }
    assert(path[start.len() as int] == '?');
    text::lemma_until_unique(path, '?', start.len() as int);
    assert(path.skip(start.len() as int + 1) == query);
    assert(path.take(start.len() as int) == start);
}

#[verifier::spinoff_prover]
proof fn lemma_keys_are_plain(key: Seq<char>)
    requires
        key == "pow"@ || key == "mode"@ || key == "stemp"@ || key == "shum"@ || key == "f_rate"@
            || key == "f_dir"@,
    ensures
        forall|i: int| 0 <= i < key.len() ==> key[i] != '=' && key[i] != '&',
{
    reveal_strlit("pow");
    reveal_strlit("mode");
    reveal_strlit("stemp");
    reveal_strlit("shum");
    reveal_strlit("f_rate");
    reveal_strlit("f_dir");
}

/// What is written is what a unit reads from the query: the six parameters,
/// each under its own key with its own text, and nothing else.
#[verifier::spinoff_prover]
pub proof fn law_written_parameters_read_back(params: Params)
    requires
        !params.pow.contains('&'),
        !params.mode.contains('&'),
        !params.stemp.contains('&'),
        !params.shum.contains('&'),
        !params.f_rate.contains('&'),
        !params.f_dir.contains('&'),
    ensures
        query_pairs(super::write_path(params)) == seq![
            ("pow"@, params.pow),
            ("mode"@, params.mode),
            ("stemp"@, params.stemp),
            ("shum"@, params.shum),
            ("f_rate"@, params.f_rate),
            ("f_dir"@, params.f_dir),
        ],
        super::write_path(params).take(text::until(super::write_path(params), '?') as int)
            == "/aircon/set_control_info"@,
{
    let pieces = written_pairs(params);
    lemma_path_is_joined(params);
    lemma_start_of_path(joined(pieces, '&'));
    lemma_keys_are_plain("pow"@);
    lemma_keys_are_plain("mode"@);
    lemma_keys_are_plain("stemp"@);
    lemma_keys_are_plain("shum"@);
    lemma_keys_are_plain("f_rate"@);
    lemma_keys_are_plain("f_dir"@);
    lemma_query_pair("pow"@, params.pow);
    lemma_query_pair("mode"@, params.mode);
    lemma_query_pair("stemp"@, params.stemp);
    lemma_query_pair("shum"@, params.shum);
    lemma_query_pair("f_rate"@, params.f_rate);
    lemma_query_pair("f_dir"@, params.f_dir);
    law_split_undoes_join(pieces, '&');
}

/// Whatever the texts of the parameters are, each stands whole in the path, one
/// after the other, with nothing but the keys between them.
#[verifier::spinoff_prover]
pub proof fn law_written_parameters_stand_in_the_path(params: Params)
    ensures
        ({
            let path = super::write_path(params);
            let pow = 29 + params.pow.len() as int;
            let mode = pow + 6 + params.mode.len();
            let stemp = mode + 7 + params.stemp.len();
            let shum = stemp + 6 + params.shum.len();
            let f_rate = shum + 8 + params.f_rate.len();
            let f_dir = f_rate + 7 + params.f_dir.len();
            &&& path.subrange(29, pow) == params.pow
            &&& path.subrange(pow, pow + 6) == "&mode="@
            &&& path.subrange(pow + 6, mode) == params.mode
            &&& path.subrange(mode, mode + 7) == "&stemp="@
            &&& path.subrange(mode + 7, stemp) == params.stemp
            &&& path.subrange(stemp, stemp + 6) == "&shum="@
            &&& path.subrange(stemp + 6, shum) == params.shum
            &&& path.subrange(shum, shum + 8) == "&f_rate="@
            &&& path.subrange(shum + 8, f_rate) == params.f_rate
            &&& path.subrange(f_rate, f_rate + 7) == "&f_dir="@
            &&& path.subrange(f_rate + 7, f_dir) == params.f_dir
            &&& path.len() == f_dir
        }),
{
    reveal_strlit("/aircon/set_control_info?pow=");
    reveal_strlit("&mode=");
    reveal_strlit("&stemp=");
    reveal_strlit("&shum=");
    reveal_strlit("&f_rate=");
    reveal_strlit("&f_dir=");
}

/// What a unit reports is what is sent back to it; what it does not report is
/// sent as a unit that is on, cooling to 22 degrees, with an automatic fan and
/// without swing.
pub proof fn law_reported_parameters_are_sent_back(fields: Map<Seq<char>, Seq<char>>)
    ensures
        ({
            let params = super::current_params(fields);
            &&& params.pow == (if fields.contains_key("pow"@) {
                fields["pow"@]
            } else {
                "1"@
            })
            &&& params.mode == (if fields.contains_key("mode"@) {
                fields["mode"@]
            } else {
                "3"@
            })
            &&& params.stemp == (if fields.contains_key("stemp"@) {
                fields["stemp"@]
            } else {
                "22.0"@
            })
            &&& params.shum == (if fields.contains_key("shum"@) {
                fields["shum"@]
            } else {
                "0"@
            })
            &&& params.f_rate == (if fields.contains_key("f_rate"@) {
                fields["f_rate"@]
            } else {
                "A"@
            })
            &&& params.f_dir == (if fields.contains_key("f_dir"@) {
                fields["f_dir"@]
            } else {
                "0"@
            })
        }),
{
}

/// The modes that work towards a setpoint: the automatic ones, cooling and
/// heating.
pub proof fn law_setpoint_modes(m: u8)
    ensures
        mode::is_setpoint_mode(m) <==> m == 0 || m == 1 || m == 3 || m == 4 || m == 7,
{
}

/// A command is written as the one text for its value: `1` or `0` for power,
/// digits that spell the mode or the direction, the rate as it is, the
/// temperature as it is printed. A mode that works towards a setpoint replaces
/// one that is no number by 22 degrees, and a humidity that is none by zero;
/// other modes leave both alone.
pub proof fn law_command_is_written_as_its_value(params: Params, command: CommandView)
    ensures
        ({
            let after = super::commanded(params, command);
            match command {
                CommandView::Power(on) => after.pow == (if on {
                    "1"@
                } else {
                    "0"@
                }),
                CommandView::Mode(m) => {
                    &&& number::all_digits(after.mode)
                    &&& number::digits_value(after.mode) == m
                    &&& after.mode.len() > 1 ==> after.mode[0] != '0'
                    &&& !mode::is_setpoint_mode(m) ==> after.stemp == params.stemp && after.shum
                        == params.shum
                    &&& mode::is_setpoint_mode(m) && !number::is_fraction_text(params.stemp)
                        ==> after.stemp == "22.0"@
                    &&& mode::is_setpoint_mode(m) && number::unsigned_value(
                        params.shum,
                        0xffff_ffff,
                    ) is None ==> after.shum == "0"@
                },
                CommandView::Temperature(t) => after.stemp == t.one_decimal_text(),
                CommandView::FanRate(rate) => after.f_rate == rate,
                CommandView::FanDir(dir) => {
                    &&& number::all_digits(after.f_dir)
                    &&& number::digits_value(after.f_dir) == dir
                    &&& after.f_dir.len() > 1 ==> after.f_dir[0] != '0'
                },
            }
        }),
{
    match command {
        CommandView::Mode(m) => {
            number::lemma_decimal_text(m as nat);
            number::laws::law_decimal_text_has_no_leading_zero(m as nat);
        },
        CommandView::FanDir(dir) => {
            number::lemma_decimal_text(dir as nat);
            number::laws::law_decimal_text_has_no_leading_zero(dir as nat);
        },
        _ => {},
    }
}

// --- The state of a unit ---

/// A unit is on exactly where it reports `pow=1`.
pub proof fn law_power_is_reported_as_one(fields: Map<Seq<char>, Seq<char>>)
    ensures
        super::power_field(fields) <==> fields.contains_key("pow"@) && fields["pow"@].len() == 1
            && fields["pow"@][0] == '1',
{
    reveal_strlit("1");
    if fields.contains_key("pow"@) && fields["pow"@].len() == 1 && fields["pow"@][0] == '1' {
        assert(fields["pow"@] == "1"@);
    }
}

/// A numeric field is the number from 0 to 255 that its digits spell; anything
/// else counts as zero.
pub proof fn law_numeric_fields(fields: Map<Seq<char>, Seq<char>>, key: Seq<char>, n: nat)
    ensures
        fields.contains_key(key) && n <= 255 && fields[key] == number::decimal_text(n)
            ==> super::byte_field(fields, key) == n,
        fields.contains_key(key) && n <= 255 && number::unsigned_value(fields[key], 255) == Some(n)
            ==> super::byte_field(fields, key) == n,
        fields.contains_key(key) && number::unsigned_value(fields[key], 255) is None
            ==> super::byte_field(fields, key) == 0,
        !fields.contains_key(key) ==> super::byte_field(fields, key) == 0,
{
    if n <= 255 {
        number::law_unsigned_roundtrip(n, 255);
    }
}

/// A temperature is there where the unit reports a number, and is the text that
/// it reports; other text fields are what the unit reports, or the default.
pub proof fn law_text_fields(
    fields: Map<Seq<char>, Seq<char>>,
    key: Seq<char>,
    default: Seq<char>,
)
    ensures
        fields.contains_key(key) && number::is_fraction_text(fields[key])
            ==> super::fraction_field(fields, key) == Some(fields[key]),
        fields.contains_key(key) && !number::is_fraction_text(fields[key])
            ==> super::fraction_field(fields, key) is None,
        !fields.contains_key(key) ==> super::fraction_field(fields, key) is None,
        fields.contains_key(key) ==> super::field_or(fields, key, default) == fields[key],
        !fields.contains_key(key) ==> super::field_or(fields, key, default) == default,
{
}

// --- Reading a body ---

/// Joining gives back what was split, and no piece holds a separator.
pub proof fn law_join_undoes_split(s: Seq<char>, sep: char)
    ensures
        text::split_on(s, sep).len() > 0,
        joined(text::split_on(s, sep), sep) == s,
        forall|i: int|
            0 <= i < text::split_on(s, sep).len() ==> !(#[trigger] text::split_on(
                s,
                sep,
            )[i]).contains(sep),
    decreases s.len(),
{
    let k = text::until(s, sep) as int;
    let pieces = text::split_on(s, sep);
    text::lemma_until(s, sep);
    if k >= s.len() {
        assert(pieces == seq![s]);
        assert(!s.contains(sep));
    } else {
        let rest = s.skip(k + 1);
        law_join_undoes_split(rest, sep);
        let others = text::split_on(rest, sep);
        assert(pieces == seq![s.take(k)] + others);
        assert(pieces.drop_first() == others);
        assert(joined(pieces, sep) == s.take(k) + seq![sep] + rest);
        assert(s.take(k) + seq![sep] + rest == s);
        assert forall|i: int| 0 <= i < pieces.len() implies !(#[trigger] pieces[i]).contains(
            sep,
        ) by {
            if i == 0 {
                if s.take(k).contains(sep) {
                    let j = choose|j: int| 0 <= j < k && s.take(k)[j] == sep;
                    assert(s[j] == sep);
                }
            } else {
                assert(pieces[i] == others[i - 1]);
            }
        }
    }
}

/// A pair is its key without the white space around it, and all that follows
/// the first `=`, decoded; without an `=`, the value is empty.
pub proof fn law_pairs_are_read(
    lead: Seq<char>,
    key: Seq<char>,
    tail: Seq<char>,
    value: Seq<char>,
)
    requires
        text::laws::all_white(lead),
        text::laws::all_white(tail),
        key.len() > 0,
        !text::is_white(key[0]),
        !text::is_white(key.last()),
        !key.contains('='),
    ensures
        super::parsed_pair(lead + key + tail + seq!['='] + value) == Some(
            (key, encoding::percent_text(value)),
        ),
        super::parsed_pair(lead + key + tail) == Some((key, encoding::percent_text(Seq::empty()))),
        encoding::percent_text(Seq::empty()) == Seq::<char>::empty(),
{
    let name = lead + key + tail;
    assert(!text::is_white('='));
    assert forall|i: int| 0 <= i < name.len() implies name[i] != '=' by {
        if i < lead.len() {
            assert(name[i] == lead[i]);
        } else if i < lead.len() + key.len() {
            assert(key.contains(key[i - lead.len()]));
            assert(name[i] == key[i - lead.len()]);
        } else {
            assert(name[i] == tail[i - lead.len() - key.len()]);
        }
    }
    let all = name + seq!['='] + value;
    assert forall|i: int| 0 <= i < name.len() implies all[i] != '=' by {
        assert(all[i] == name[i]);
    }
    text::lemma_until_unique(all, '=', name.len() as int);
    text::lemma_until_unique(name, '=', name.len() as int);
    assert(all.take(name.len() as int) == name);
    assert(all.skip(name.len() as int + 1) == value);
    assert(name.take(name.len() as int) == name);
    text::laws::law_trimming_takes_white_space_away(lead, key, tail);
    encoding::law_plain_text_is_kept(Seq::empty());
}

/// A pair with nothing but white space for a key counts for nothing.
pub proof fn law_pairs_without_a_key_are_skipped(blank: Seq<char>, value: Seq<char>)
    requires
        text::laws::all_white(blank),
    ensures
        super::parsed_pair(blank + seq!['='] + value) is None,
        super::parsed_pair(blank) is None,
{
    let all = blank + seq!['='] + value;
    assert(!text::is_white('='));
    assert forall|i: int| 0 <= i < blank.len() implies all[i] != '=' && blank[i] != '=' by {
        assert(all[i] == blank[i]);
    }
    text::lemma_until_unique(all, '=', blank.len() as int);
    text::lemma_until_unique(blank, '=', blank.len() as int);
    assert(all.take(blank.len() as int) == blank);
    assert(blank.take(blank.len() as int) == blank);
    text::laws::law_only_blank_text_trims_to_nothing(blank);
}

proof fn lemma_with_pairs(
    fields: Map<Seq<char>, Seq<char>>,
    pairs: Seq<Seq<char>>,
    last: int,
    key: Seq<char>,
)
    requires
        -1 <= last < pairs.len(),
        last >= 0 ==> (super::parsed_pair(pairs[last]) matches Some(p) && p.0 == key),
        forall|j: int|
            last < j < pairs.len() ==> !(super::parsed_pair(#[trigger] pairs[j]) matches Some(p)
                && p.0 == key),
    ensures
        ({
            let all = super::with_pairs(fields, pairs);
            if last >= 0 {
                all.contains_key(key) && all[key] == (super::parsed_pair(pairs[last])->0).1
            } else {
                all.contains_key(key) == fields.contains_key(key) && (fields.contains_key(key)
                    ==> all[key] == fields[key])
            }
        }),
    decreases pairs.len(),
{
    if pairs.len() > 0 {
        let rest = pairs.drop_first();
        let next = super::with_pair(fields, pairs[0]);
        assert forall|j: int| last - 1 < j < rest.len() && j >= 0 implies !(super::parsed_pair(
            #[trigger] rest[j],
        ) matches Some(p) && p.0 == key) by {
            assert(rest[j] == pairs[j + 1]);
        }
        if last >= 1 {
            assert(rest[last - 1] == pairs[last]);
            lemma_with_pairs(next, rest, last - 1, key);
        } else {
            lemma_with_pairs(next, rest, -1, key);
        }
    }
}

/// The fields of a body are those of its pairs, all of them: a key is there
/// where some pair has it, with the value of the last such pair.
pub proof fn law_all_pairs_of_a_body_count(body: Seq<char>, key: Seq<char>, last: int)
    requires
        ({
            let pairs = text::split_on(text::trimmed(body), ',');
            &&& 0 <= last < pairs.len()
            &&& super::parsed_pair(pairs[last]) matches Some(p) && p.0 == key
            &&& forall|j: int|
                last < j < pairs.len() ==> !(super::parsed_pair(#[trigger] pairs[j]) matches Some(
                    p,
                ) && p.0 == key)
        }),
    ensures
        super::parsed(body).contains_key(key),
        super::parsed(body)[key] == (super::parsed_pair(
            text::split_on(text::trimmed(body), ',')[last],
        )->0).1,
{
    lemma_with_pairs(Map::empty(), text::split_on(text::trimmed(body), ','), last, key);
}

/// A key that no pair of a body has is not among its fields.
pub proof fn law_other_keys_are_absent(body: Seq<char>, key: Seq<char>)
    requires
        ({
            let pairs = text::split_on(text::trimmed(body), ',');
            forall|j: int|
                0 <= j < pairs.len() ==> !(super::parsed_pair(#[trigger] pairs[j]) matches Some(p)
                    && p.0 == key)
        }),
    ensures
        !super::parsed(body).contains_key(key),
{
    lemma_with_pairs(Map::empty(), text::split_on(text::trimmed(body), ','), -1, key);
}

// --- Reading an HTTP reply ---

/// The end of a line, twice.
pub open spec fn blank_line() -> Seq<char> {
    seq!['\r', '\n', '\r', '\n']
}

/// Whether an empty line comes after `head` and not before.
pub open spec fn is_head(head: Seq<char>) -> bool {
    forall|i: int|
        0 <= i < head.len() ==> #[trigger] (head + blank_line()).subrange(i, i + 4)
            != blank_line()
}

/// A reply without an empty line is none.
pub proof fn law_reply_without_an_empty_line_is_malformed(raw: Seq<u8>)
    requires
        forall|i: int|
            0 <= i && i + 4 <= encoding::lossy_text(raw).len() ==> #[trigger] encoding::lossy_text(
                raw,
            ).subrange(i, i + 4) != blank_line(),
    ensures
        super::http_reply(raw) == super::HttpReply::Malformed,
{
    let reply = encoding::lossy_text(raw);
    assert forall|i: int| !super::head_ends_at(reply, i) by {
        if super::is_blank_line(reply, i) {
            assert(reply.subrange(i, i + 4) == blank_line());
        }
    }
}

proof fn lemma_head(raw: Seq<u8>, head: Seq<char>, body: Seq<char>)
    requires
        encoding::lossy_text(raw) == head + blank_line() + body,
        is_head(head),
    ensures
        super::http_reply(raw) == (if super::status_code(head) == 200 {
            super::HttpReply::Body(body)
        } else {
            super::HttpReply::Status(super::status_code(head))
        }),
{
    let reply = encoding::lossy_text(raw);
    let end = head.len() as int;
    let upto = head + blank_line();
    assert(super::is_blank_line(reply, end));
    assert forall|j: int| 0 <= j < end implies !super::is_blank_line(reply, j) by {
        if super::is_blank_line(reply, j) {
            assert(upto[j] == reply[j]);
            assert(upto[j + 1] == reply[j + 1]);
            assert(upto[j + 2] == reply[j + 2]);
            assert(upto[j + 3] == reply[j + 3]);
            assert(upto.subrange(j, j + 4) == blank_line());
        }
    }
    assert(super::head_ends_at(reply, end));
    let found = choose|i: int| super::head_ends_at(reply, i);
    assert(super::head_ends_at(reply, found));
    if found < end {
        assert(!super::is_blank_line(reply, found));
    } else if end < found {
        assert(!super::is_blank_line(reply, end));
    }
    assert(reply.take(end) == head);
    assert(reply.skip(end + 4) == body);
}

/// Whether `line` and `more` are the first line of a head and the rest of it.
pub open spec fn is_first_line(line: Seq<char>, more: Seq<char>) -> bool {
    &&& !line.contains('\n')
    &&& more.len() > 0 ==> more[0] == '\n'
}

proof fn lemma_first_line(line: Seq<char>, more: Seq<char>)
    requires
        is_first_line(line, more),
    ensures
        (line + more).take(text::until(line + more, '\n') as int) == line,
{
    let head = line + more;
    assert forall|i: int| 0 <= i < line.len() implies head[i] != '\n' by {
        assert(line.contains(line[i]));
        assert(head[i] == line[i]);
    }
    text::lemma_until_unique(head, '\n', line.len() as int);
    assert(head.take(line.len() as int) == line);
}

/// The second word of the first line says how a request went: where it is the
/// number 200, all that follows the first empty line is the body, whatever and
/// however much it is; otherwise it is the status, zero where it is no number.
pub proof fn law_reply_is_read_by_its_status(
    raw: Seq<u8>,
    lead: Seq<char>,
    version: Seq<char>,
    gap: Seq<char>,
    code: Seq<char>,
    reason: Seq<char>,
    more: Seq<char>,
    body: Seq<char>,
)
    requires
        text::laws::all_white(lead),
        version.len() > 0,
        text::laws::no_white(version),
        gap.len() > 0,
        text::laws::all_white(gap),
        code.len() > 0,
        text::laws::no_white(code),
        reason.len() > 0 ==> text::is_white(reason[0]),
        is_first_line(lead + version + gap + code + reason, more),
        is_head(lead + version + gap + code + reason + more),
        encoding::lossy_text(raw) == lead + version + gap + code + reason + more + blank_line()
            + body,
    ensures
        super::http_reply(raw) == (match number::unsigned_value(code, 65535) {
            Some(v) => if v == 200 {
                super::HttpReply::Body(body)
            } else {
                super::HttpReply::Status(v as u16)
            },
            None => super::HttpReply::Status(0),
        }),
{
    let line = lead + version + gap + code + reason;
    let head = line + more;
    lemma_first_line(line, more);
    text::laws::law_second_word_is_found(lead, version, gap, code, reason);
    lemma_head(raw, head, body);
}

/// A first line without a second word says nothing of how a request went.
pub proof fn law_reply_without_a_status(
    raw: Seq<u8>,
    lead: Seq<char>,
    version: Seq<char>,
    more: Seq<char>,
    body: Seq<char>,
)
    requires
        text::laws::all_white(lead),
        text::laws::no_white(version),
        is_first_line(lead + version, more),
        is_head(lead + version + more),
        encoding::lossy_text(raw) == lead + version + more + blank_line() + body,
    ensures
        super::http_reply(raw) == super::HttpReply::Status(0),
{
    lemma_first_line(lead + version, more);
    text::laws::law_one_word_has_no_second(lead, version);
    lemma_head(raw, lead + version + more, body);
}

/// The text of a successful reply is read as it was sent, to its end: the bytes
/// of any head with status 200 and of any body after it give exactly that body.
pub proof fn law_successful_reply_is_read_whole(
    version: Seq<char>,
    reason: Seq<char>,
    headers: Seq<char>,
    body: Seq<char>,
)
    requires
        version.len() > 0,
        text::laws::no_white(version),
        reason.len() > 0 ==> reason[0] == ' ',
        is_first_line(version + seq![' ', '2', '0', '0'] + reason, headers),
        is_head(version + seq![' ', '2', '0', '0'] + reason + headers),
    ensures
        super::http_reply(
            vstd::utf8::encode_utf8(
                version + seq![' ', '2', '0', '0'] + reason + headers + blank_line() + body,
            ),
        ) == super::HttpReply::Body(body),
{
    let gap = seq![' '];
    let code = seq!['2', '0', '0'];
    let none = Seq::<char>::empty();
    let reply = version + seq![' ', '2', '0', '0'] + reason + headers + blank_line() + body;
    let raw = vstd::utf8::encode_utf8(reply);
    encoding::law_encoded_text_is_read(reply);
    assert(none + version + gap + code + reason == version + seq![' ', '2', '0', '0'] + reason);
    reveal_with_fuel(number::digits_value, 4);
    assert(code.drop_last() == seq!['2', '0']);
    assert(code.drop_last().drop_last() == seq!['2']);
    assert(code.drop_last().drop_last().drop_last() == none);
    assert(number::digits_value(code) == 200);
    number::laws::law_digits_are_an_unsigned_number(code, 65535);
    law_reply_is_read_by_its_status(raw, none, version, gap, code, reason, headers, body);
}

/// What a request comes to, case by case: no reply and no success are errors
/// that say so; a body without `ret=` or with another than `OK` is one too; and
/// with `ret=OK` the outcome is all that the body says.
pub proof fn law_outcomes(host: Seq<char>, path: Seq<char>, raw: Seq<u8>, cause: Seq<char>)
    ensures
        super::outcome(host, path, super::ExchangeView::TimedOut(cause)) == Err::<
            Map<Seq<char>, Seq<char>>,
            super::DaikinErrorView,
        >(super::DaikinErrorView::TimedOut { host, path, cause }),
        super::outcome(host, path, super::ExchangeView::Failed(cause)) == Err::<
            Map<Seq<char>, Seq<char>>,
            super::DaikinErrorView,
        >(super::DaikinErrorView::Io { host, path, cause }),
        super::http_reply(raw) is Malformed ==> super::outcome(
            host,
            path,
            super::ExchangeView::Reply(raw),
        ) == Err::<Map<Seq<char>, Seq<char>>, super::DaikinErrorView>(
            super::DaikinErrorView::MalformedHttp { host, path },
        ),
        super::http_reply(raw) matches super::HttpReply::Status(code) ==> super::outcome(
            host,
            path,
            super::ExchangeView::Reply(raw),
        ) == Err::<Map<Seq<char>, Seq<char>>, super::DaikinErrorView>(
            super::DaikinErrorView::Http { code, host, path },
        ),
        super::http_reply(raw) matches super::HttpReply::Body(body) ==> {
            let fields = super::parsed(body);
            let r = super::outcome(host, path, super::ExchangeView::Reply(raw));
            &&& !fields.contains_key("ret"@) ==> r == Err::<
                Map<Seq<char>, Seq<char>>,
                super::DaikinErrorView,
            >(super::DaikinErrorView::MalformedBody { path, body })
            &&& fields.contains_key("ret"@) && fields["ret"@] != "OK"@ ==> r == Err::<
                Map<Seq<char>, Seq<char>>,
                super::DaikinErrorView,
            >(super::DaikinErrorView::Ret { ret: fields["ret"@], path })
            &&& fields.contains_key("ret"@) && fields["ret"@] == "OK"@ ==> r == Ok::<
                Map<Seq<char>, Seq<char>>,
                super::DaikinErrorView,
            >(fields)
        },
{
}

/// An error says what went wrong, and with whom or over what.
pub proof fn law_errors_in_words(
    host: Seq<char>,
    path: Seq<char>,
    cause: Seq<char>,
    code: u16,
)
    ensures
        (super::DaikinErrorView::TimedOut { host, path, cause }).text()
            == "timed out talking to "@ + host + path + ": "@ + cause,
        (super::DaikinErrorView::Io { host, path, cause }).text() == "I/O error talking to "@
            + host + path + ": "@ + cause,
        (super::DaikinErrorView::MalformedHttp { host, path }).text()
            == "malformed HTTP response from "@ + host + path,
        (super::DaikinErrorView::Http { code, host, path }).text() == "HTTP "@
            + number::decimal_text(code as nat) + " from "@ + host + path,
        (super::DaikinErrorView::Ret { ret: cause, path }).text() == "device returned ret="@
            + cause + " for "@ + path,
        (super::DaikinErrorView::MalformedBody { path, body: cause }).text()
            == "malformed response for "@ + path + ": "@ + cause,
{
}

/// A unit goes by the name that it reports, unless that is empty.
pub proof fn law_units_go_by_the_name_they_report(fields: Map<Seq<char>, Seq<char>>)
    ensures
        fields.contains_key("name"@) && fields["name"@].len() > 0 ==> super::unit_name(fields)
            == Some(fields["name"@]),
        fields.contains_key("name"@) && fields["name"@].len() == 0 ==> super::unit_name(
            fields,
        ) is None,
        !fields.contains_key("name"@) ==> super::unit_name(fields) is None,
{
}

} // verus!
