//! What holds of every report of a server and every run of `lmutil`.

use crate::lmstat;
use crate::lmutil::{self, FeatureUsageView, LmutilError, ServerStatusView};
use crate::outside;
use crate::text;
use crate::text_laws;
use vstd::prelude::*;

verus! {

/// Where licenses are issued, the share in use is the quotient of the two counts,
/// also where all are in use or more than were issued; otherwise it is zero.
pub proof fn law_usage_ratio(used: i64, total: i64)
    ensures
        ({
            let ratio = lmutil::ratio_of(used, total);
            &&& ratio.denominator > 0
            &&& total > 0 ==> ratio.numerator * total == used * ratio.denominator
            &&& total <= 0 ==> ratio.numerator == 0
        }),
{
}

/// The licenses of a server are those of its features: the sums over two lists of
/// features add up, a single feature counts with its own, and no feature with
/// nothing.
pub proof fn law_totals(a: Seq<FeatureUsageView>, b: Seq<FeatureUsageView>, f: FeatureUsageView)
    ensures
        lmutil::sum(lmutil::totals(a + b)) == lmutil::sum(lmutil::totals(a)) + lmutil::sum(
            lmutil::totals(b),
        ),
        lmutil::sum(lmutil::useds(a + b)) == lmutil::sum(lmutil::useds(a)) + lmutil::sum(
            lmutil::useds(b),
        ),
        lmutil::sum(lmutil::totals(seq![f])) == f.total,
        lmutil::sum(lmutil::useds(seq![f])) == f.used,
        lmutil::sum(lmutil::totals(Seq::empty())) == 0,
        lmutil::sum(lmutil::useds(Seq::empty())) == 0,
{
    assert(lmutil::totals(a + b) =~= lmutil::totals(a) + lmutil::totals(b));
    assert(lmutil::useds(a + b) =~= lmutil::useds(a) + lmutil::useds(b));
    lemma_sum_append(lmutil::totals(a), lmutil::totals(b));
    lemma_sum_append(lmutil::useds(a), lmutil::useds(b));
    reveal_with_fuel(lmutil::sum, 2);
    assert(lmutil::totals(seq![f]).drop_last() =~= Seq::<i64>::empty());
    assert(lmutil::useds(seq![f]).drop_last() =~= Seq::<i64>::empty());
}

/// The sum of two lists put together.
proof fn lemma_sum_append(a: Seq<i64>, b: Seq<i64>)
    ensures
        lmutil::sum(a + b) == lmutil::sum(a) + lmutil::sum(b),
    decreases b.len(),
{
    if b.len() == 0 {
        assert(a + b =~= a);
    } else {
        assert((a + b).drop_last() =~= a + b.drop_last());
        lemma_sum_append(a, b.drop_last());
    }
}

/// A server counts as up exactly where its status is unknown, or is `UP` once
/// ASCII letters are in upper case.
pub proof fn law_is_up(status: ServerStatusView)
    ensures
        status.is_up() <==> status.status.len() == 0 || outside::ascii_uppercase(status.status)
            == "UP"@,
        status.status == "DOWN"@ || status.status == "UNSUPPORTED"@ ==> !status.is_up(),
{
    reveal_strlit("UP");
    reveal_strlit("DOWN");
    reveal_strlit("UNSUPPORTED");
    let s = status.status;
    let upper = outside::ascii_uppercase(s);
    if lmutil::is_up_text(s) {
        assert(upper =~= "UP"@);
    }
    if upper == "UP"@ {
        assert(upper.len() == 2 && upper[0] == 'U' && upper[1] == 'P');
        lemma_letter(s[0], 'U', 'u');
        lemma_letter(s[1], 'P', 'p');
    }
}

/// A letter whose upper-case form is a given one is that one or its lower-case
/// form.
proof fn lemma_letter(c: char, upper: char, lower: char)
    requires
        'A' <= upper && upper <= 'Z',
        lower as u32 == upper as u32 + 32,
        upper == if 'a' <= c && c <= 'z' {
            (c as u32 - 32) as char
        } else {
            c
        },
    ensures
        c == upper || c == lower,
{
}

/// The address splits at its first `@` into a port that reads back as the
/// configured one, and the configured host.
pub proof fn law_target(host: Seq<char>, port: u16)
    ensures
        exists|at: int| #[trigger] splits_at(lmutil::target_view(host, port), at, host, port),
{
    reveal_strlit("@");
    let digits = text::decimal(port as nat);
    let s = lmutil::target_view(host, port);
    let at = digits.len() as int;
    text_laws::law_decimal(port as nat);
    text_laws::law_ports_read_back(port as nat);
    assert(s.take(at) =~= digits);
    assert(s.skip(at + 1) =~= host);
    assert forall|i: int| 0 <= i < at implies #[trigger] s[i] != '@' by {
        assert(s[i] == digits[i]);
        assert(text::is_digit(digits[i]));
    }
    assert(splits_at(s, at, host, port));
}

/// The first `@` of a text stands at a position, behind a run of digits that reads
/// as the port and before the host.
pub open spec fn splits_at(s: Seq<char>, at: int, host: Seq<char>, port: u16) -> bool {
    &&& 0 < at < s.len()
    &&& s[at] == '@'
    &&& forall|i: int| 0 <= i < at ==> #[trigger] s[i] != '@'
    &&& text::all_digits(s.take(at))
    &&& text::parsed_u16(s.take(at)) == Some(port as int)
    &&& s.skip(at + 1) == host
}

/// Servers with another port or another host have another address.
pub proof fn law_targets_differ(host: Seq<char>, port: u16, other_host: Seq<char>, other_port: u16)
    requires
        host != other_host || port != other_port,
    ensures
        lmutil::target_view(host, port) != lmutil::target_view(other_host, other_port),
{
    law_target(host, port);
    law_target(other_host, other_port);
    let s = lmutil::target_view(host, port);
    if s == lmutil::target_view(other_host, other_port) {
        let a = choose|at: int| #[trigger] splits_at(s, at, host, port);
        let b = choose|at: int| #[trigger] splits_at(s, at, other_host, other_port);
        if a < b {
            assert(s[a] != '@');
        }
        if b < a {
            assert(s[b] != '@');
        }
    }
}

/// A configured program is run as configured; otherwise it is `lmutil`.
pub proof fn law_program(path: Seq<char>)
    ensures
        path.len() > 0 ==> lmutil::program_view(path) == path,
        path.len() == 0 ==> lmutil::program_view(path) == "lmutil"@,
{
}

/// A run that wrote anything but white space succeeded with just that output,
/// whatever its exit code and its standard error.
pub proof fn law_output_counts(
    stdout: Seq<char>,
    exit_code: Option<i32>,
    stderr: Seq<char>,
    r: Result<String, LmutilError>,
)
    requires
        lmutil::judged_output(stdout, exit_code, stderr, r),
        !text_laws::is_blank(stdout),
    ensures
        r matches Ok(output) && output@ == stdout,
{
    text_laws::law_trimmed(stdout);
    if text::trimmed(stdout).len() == 0 {
        let (front, back) = choose|front: Seq<char>, back: Seq<char>|
            text_laws::is_blank(front) && text_laws::is_blank(back) && stdout == #[trigger] ((front
                + text::trimmed(stdout)) + back);
        assert forall|i: int| 0 <= i < stdout.len() implies text::is_white_space(
            #[trigger] stdout[i],
        ) by {
            if i < front.len() {
                assert(stdout[i] == front[i]);
            } else {
                assert(stdout[i] == back[i - front.len()]);
            }
        }
    }
}

/// A run that wrote nothing but white space failed, with its exit code and the
/// first five hundred characters of its stripped standard error.
pub proof fn law_blank_output_fails(
    stdout: Seq<char>,
    exit_code: Option<i32>,
    stderr: Seq<char>,
    r: Result<String, LmutilError>,
)
    requires
        lmutil::judged_output(stdout, exit_code, stderr, r),
        text_laws::is_blank(stdout),
    ensures
        r matches Err(LmutilError::Failed { exit_code: code, stderr: kept }) && code == exit_code
            && kept@ == if text::trimmed(stderr).len() <= 500 {
            text::trimmed(stderr)
        } else {
            text::trimmed(stderr).take(500)
        },
{
    text_laws::law_trimmed(stdout);
    if text::trimmed(stdout).len() > 0 {
        let (front, back) = choose|front: Seq<char>, back: Seq<char>|
            text_laws::is_blank(front) && text_laws::is_blank(back) && stdout == #[trigger] ((front
                + text::trimmed(stdout)) + back);
        assert(stdout[front.len() as int] == text::trimmed(stdout)[0]);
    }
}

/// The message of a failed run tells its exit code, and what it wrote to its
/// standard error.
pub proof fn law_failed_message(error: LmutilError)
    ensures
        error matches LmutilError::Failed { exit_code, stderr } ==> {
            &&& text::contains_text(error.message_view(), stderr@)
            &&& text::contains_text(error.message_view(), "lmutil 无输出，退出码 "@)
            &&& exit_code matches Some(code) ==> text::contains_text(
                error.message_view(),
                "Some("@ + text::signed_decimal(code as int) + ")"@,
            )
            &&& exit_code is None ==> text::contains_text(error.message_view(), "None"@)
        },
        error matches LmutilError::Io(message) ==> error.message_view() == message@,
        error is NotFound ==> error.message_view() == "找不到 lmutil 可执行文件"@,
        error is Timeout ==> error.message_view() == "lmutil 执行超时"@,
{
    if let LmutilError::Failed { exit_code, stderr } = error {
        let head = "lmutil 无输出，退出码 "@;
        let code = lmutil::exit_code_text(exit_code);
        let tail = if stderr@.len() == 0 {
            Seq::<char>::empty()
        } else {
            "，stderr: "@ + stderr@
        };
        let s = error.message_view();
        let none: Seq<char> = Seq::empty();
        text_laws::law_contains(s, stderr@);
        text_laws::law_contains(s, head);
        text_laws::law_contains(s, code);
        assert(s =~= (none + head) + (code + tail));
        assert(s =~= (head + code) + tail);
        if stderr@.len() == 0 {
            assert(s =~= (s + stderr@) + none);
        } else {
            assert(s =~= ((head + code + "，stderr: "@) + stderr@) + none);
        }
    }
}

/// A status that tells nothing has all its texts and lists empty, port zero, and
/// counts as reachable and up.
pub proof fn law_blank()
    ensures
        ({
            let blank = ServerStatusView::blank();
            &&& blank.server_name.len() == 0
            &&& blank.server_host.len() == 0
            &&& blank.lmgrd_port == 0
            &&& blank.vendor_daemon.len() == 0
            &&& blank.status.len() == 0
            &&& blank.features.len() == 0
            &&& blank.users.len() == 0
            &&& blank.parse_time.len() == 0
            &&& blank.parse_error.len() == 0
            &&& !blank.unreachable
            &&& blank.is_up()
        }),
{
}

/// Of a feature that is known by its name alone nothing else is known.
pub proof fn law_named(name: Seq<char>)
    ensures
        ({
            let feature = FeatureUsageView::named(name);
            &&& feature.name == name
            &&& feature.vendor.len() == 0
            &&& feature.total == 0
            &&& feature.used == 0
            &&& feature.users.len() == 0
        }),
{
}

/// Counts are in range only where the sums and the free licenses of every feature
/// are an `i64`.
pub proof fn law_counts_in_range(status: ServerStatusView, i: int)
    requires
        status.counts_in_range(),
        0 <= i < status.features.len(),
    ensures
        i64::MIN <= lmutil::sum(lmutil::totals(status.features)) <= i64::MAX,
        i64::MIN <= lmutil::sum(lmutil::useds(status.features)) <= i64::MAX,
        i64::MIN <= status.features[i].total - status.features[i].used <= i64::MAX,
{
    let totals = lmutil::totals(status.features);
    let useds = lmutil::useds(status.features);
    assert(totals.take(totals.len() as int) =~= totals);
    assert(useds.take(useds.len() as int) =~= useds);
    assert(status.features[i].idle_in_range());
}

/// Counts that are not negative are in range wherever their sums are an `i64`.
pub proof fn law_sound_counts_in_range(status: ServerStatusView)
    requires
        lmstat::features_sound(status.features),
        lmutil::sum(lmutil::totals(status.features)) <= i64::MAX,
        lmutil::sum(lmutil::useds(status.features)) <= i64::MAX,
    ensures
        status.counts_in_range(),
{
    let totals = lmutil::totals(status.features);
    let useds = lmutil::useds(status.features);
    assert forall|k: int| 0 <= k <= totals.len() implies i64::MIN <= #[trigger] lmutil::sum(
        totals.take(k),
    ) <= i64::MAX by {
        lemma_sum_take(totals, k);
    }
    assert forall|k: int| 0 <= k <= useds.len() implies i64::MIN <= #[trigger] lmutil::sum(
        useds.take(k),
    ) <= i64::MAX by {
        lemma_sum_take(useds, k);
    }
}

/// The sum of the first of some counts that are not negative.
proof fn lemma_sum_take(counts: Seq<i64>, k: int)
    requires
        0 <= k <= counts.len(),
        forall|i: int| 0 <= i < counts.len() ==> #[trigger] counts[i] >= 0,
    ensures
        0 <= lmutil::sum(counts.take(k)) <= lmutil::sum(counts),
{
    assert(counts =~= counts.take(k) + counts.skip(k));
    lemma_sum_append(counts.take(k), counts.skip(k));
    lemma_sum_not_negative(counts.take(k));
    lemma_sum_not_negative(counts.skip(k));
}

/// The sum of counts that are not negative is not negative.
proof fn lemma_sum_not_negative(counts: Seq<i64>)
    requires
        forall|i: int| 0 <= i < counts.len() ==> #[trigger] counts[i] >= 0,
    ensures
        lmutil::sum(counts) >= 0,
    decreases counts.len(),
{
    if counts.len() > 0 {
        lemma_sum_not_negative(counts.drop_last());
    }
}

} // verus!
