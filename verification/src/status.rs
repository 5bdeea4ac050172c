use std::cmp::Ordering;
use vstd::prelude::*;

verus! {

/// The state of one archive's conversion.
///
/// `Processing` carries the progress ratio as the bit pattern of an IEEE 754
/// binary32 number (what `f32::to_bits` gives): the library orders and shows
/// it without doing float arithmetic.
#[derive(Debug)]
pub enum Status {
    Pending,
    Processing(u32),
    Success,
    Failed(String),
}

/// The colour family in which a status is shown.
#[derive(Debug, Clone, Copy, PartialEq, Eq, Structural)]
pub enum Tone {
    Gray,
    Blue,
    Green,
    Red,
}

/// What the progress column of an archive shows.
#[derive(Debug, Clone, Copy, PartialEq, Eq, Structural)]
pub enum Indicator {
    /// A bar filled to the given ratio (bit pattern of a binary32).
    Partial(u32),
    /// A full bar marked as done.
    Complete,
    /// Empty space.
    Blank,
}

/// The place of a status's variant in the listing order.
pub open spec fn rank(status: Status) -> int {
    match status {
        Status::Pending => 0,
        Status::Processing(_) => 1,
        Status::Success => 2,
        Status::Failed(_) => 3,
    }
}

/// The binary32 bit pattern encodes a NaN: all exponent bits set and a
/// non-zero mantissa.
pub open spec fn is_nan_bits(bits: u32) -> bool {
    if bits < 0x8000_0000 {
        bits > 0x7f80_0000
    } else {
        bits - 0x8000_0000 > 0x7f80_0000
    }
}

/// An integer that orders non-NaN binary32 bit patterns as their values are
/// ordered: the magnitude bits, negated when the sign bit is set (so that
/// both zeros map to 0).
pub open spec fn ratio_key(bits: u32) -> int {
    if bits < 0x8000_0000 {
        bits as int
    } else {
        0x8000_0000 - bits
    }
}

/// The status carries a progress ratio that is NaN.
pub open spec fn has_nan_ratio(status: Status) -> bool {
    status matches Status::Processing(bits) && is_nan_bits(bits)
}

/// The order in which statuses are listed: by variant
/// (pending, processing, success, failed); two processing statuses by their
/// ratios, where a NaN ratio counts as equal to any other; all other
/// statuses of one variant are equal.
pub open spec fn status_order(a: Status, b: Status) -> Ordering {
    if rank(a) < rank(b) {
        Ordering::Less
    } else if rank(a) > rank(b) {
        Ordering::Greater
    } else {
        match (a, b) {
            (Status::Processing(x), Status::Processing(y)) => {
                if is_nan_bits(x) || is_nan_bits(y) {
                    Ordering::Equal
                } else if ratio_key(x) < ratio_key(y) {
                    Ordering::Less
                } else if ratio_key(x) > ratio_key(y) {
                    Ordering::Greater
                } else {
                    Ordering::Equal
                }
            },
            _ => Ordering::Equal,
        }
    }
}

/// `a` is listed strictly after `b`.
pub open spec fn status_after(a: Status, b: Status) -> bool {
    status_order(a, b) == Ordering::Greater
}

/// The text shown for a status.
pub open spec fn status_text(status: Status) -> Seq<char> {
    match status {
        Status::Pending => "等待处理"@,
        Status::Processing(_) => "处理中"@,
        Status::Success => "处理成功"@,
        Status::Failed(e) => "处理失败: "@ + e@,
    }
}

/// The colour family of a status.
pub open spec fn status_tone(status: Status) -> Tone {
    match status {
        Status::Pending => Tone::Gray,
        Status::Processing(_) => Tone::Blue,
        Status::Success => Tone::Green,
        Status::Failed(_) => Tone::Red,
    }
}

/// What the progress column shows for a status.
pub open spec fn status_indicator(status: Status) -> Indicator {
    match status {
        Status::Processing(bits) => Indicator::Partial(bits),
        Status::Success => Indicator::Complete,
        _ => Indicator::Blank,
    }
}

impl Default for Status {
    fn default() -> (r: Status)
        ensures
            r == Status::Pending,
    {
        Status::Pending
    }
}

impl Clone for Status {
    fn clone(&self) -> (r: Status)
        ensures
            r == *self,
    {
        match self {
            Status::Pending => Status::Pending,
            Status::Processing(bits) => Status::Processing(*bits),
            Status::Success => Status::Success,
            Status::Failed(e) => Status::Failed(e.clone()),
        }
    }
}

/// The rank of a status's variant.
fn rank_of(status: &Status) -> (r: u8)
    ensures
        r == rank(*status),
{
    match status {
        Status::Pending => 0,
        Status::Processing(_) => 1,
        Status::Success => 2,
        Status::Failed(_) => 3,
    }
}

/// Splits a binary32 bit pattern into its sign and magnitude.
fn sign_and_magnitude(bits: u32) -> (r: (bool, u32))
    ensures
        r.0 == (bits >= 0x8000_0000),
        r.0 ==> r.1 == bits - 0x8000_0000,
        !r.0 ==> r.1 == bits,
{
    if bits >= 0x8000_0000 {
        (true, bits - 0x8000_0000)
    } else {
        (false, bits)
    }
}

/// Compares two binary32 bit patterns as the numbers they encode; `None`
/// when either is NaN.
fn ratio_partial_order(x: u32, y: u32) -> (r: Option<Ordering>)
    ensures
        (is_nan_bits(x) || is_nan_bits(y)) <==> r is None,
        r == Some(Ordering::Less) <==> (!is_nan_bits(x) && !is_nan_bits(y) && ratio_key(x)
            < ratio_key(y)),
        r == Some(Ordering::Greater) <==> (!is_nan_bits(x) && !is_nan_bits(y) && ratio_key(x)
            > ratio_key(y)),
        r == Some(Ordering::Equal) <==> (!is_nan_bits(x) && !is_nan_bits(y) && ratio_key(x)
            == ratio_key(y)),
{
    let (xs, xm) = sign_and_magnitude(x);
    let (ys, ym) = sign_and_magnitude(y);
    if xm > 0x7f80_0000 || ym > 0x7f80_0000 {
        None
    } else if xm == 0 && ym == 0 {
        Some(Ordering::Equal)
    } else if !xs && !ys {
        if xm < ym {
            Some(Ordering::Less)
        } else if xm > ym {
            Some(Ordering::Greater)
        } else {
            Some(Ordering::Equal)
        }
    } else if xs && ys {
        if ym < xm {
            Some(Ordering::Less)
        } else if ym > xm {
            Some(Ordering::Greater)
        } else {
            Some(Ordering::Equal)
        }
    } else if xs {
        Some(Ordering::Less)
    } else {
        Some(Ordering::Greater)
    }
}

impl Status {
    /// Compares two statuses in listing order (see [`status_order`]).
    pub fn cmp(&self, other: &Status) -> (r: Ordering)
        ensures
            r == status_order(*self, *other),
    {
        let o1: u8 = rank_of(self);
        let o2: u8 = rank_of(other);
        if o1 == o2 {
            match (self, other) {
                (Status::Processing(a), Status::Processing(b)) => {
                    match ratio_partial_order(*a, *b) {
                        Some(o) => o,
                        None => Ordering::Equal,
                    }
                },
                _ => Ordering::Equal,
            }
        } else if o1 < o2 {
            Ordering::Less
        } else {
            Ordering::Greater
        }
    }

    /// Whether `self` is listed strictly after `other`.
    pub fn is_after(&self, other: &Status) -> (r: bool)
        ensures
            r == status_after(*self, *other),
    {
        match self.cmp(other) {
            Ordering::Greater => true,
            _ => false,
        }
    }

    /// The colour family in which the status is shown.
    pub fn color(&self) -> (r: Tone)
        ensures
            r == status_tone(*self),
    {
        match self {
            Status::Pending => Tone::Gray,
            Status::Processing(_) => Tone::Blue,
            Status::Success => Tone::Green,
            Status::Failed(_) => Tone::Red,
        }
    }

    /// What the progress column shows for the status.
    pub fn indicator(&self) -> (r: Indicator)
        ensures
            r == status_indicator(*self),
    {
        match self {
            Status::Processing(bits) => Indicator::Partial(*bits),
            Status::Success => Indicator::Complete,
            _ => Indicator::Blank,
        }
    }

    /// An archive in this status may be taken off the list: every status
    /// but processing.
    pub fn is_removable(&self) -> (r: bool)
        ensures
            r == !(*self is Processing),
    {
        match self {
            Status::Processing(_) => false,
            _ => true,
        }
    }

    /// The text shown for the status.
    pub fn to_string(&self) -> (r: String)
        ensures
            r@ == status_text(*self),
    {
        match self {
            Status::Pending => "等待处理".to_owned(),
            Status::Processing(_) => "处理中".to_owned(),
            Status::Success => "处理成功".to_owned(),
            Status::Failed(e) => {
                let mut r = "处理失败: ".to_owned();
                r.append(e.as_str());
                r
            },
        }
    }
}


/// Every status is listed level with itself.
pub proof fn lemma_status_order_reflexive(a: Status)
    ensures
        status_order(a, a) == Ordering::Equal,
{
}

/// Swapping the two statuses reverses their order.
pub proof fn lemma_status_order_antisymmetric(a: Status, b: Status)
    ensures
        status_order(a, b) == Ordering::Less <==> status_order(b, a) == Ordering::Greater,
        status_order(a, b) == Ordering::Equal <==> status_order(b, a) == Ordering::Equal,
{
}

/// Among statuses whose ratios are not NaN, the order is transitive: "not
/// after" chains, and so does "before".
pub proof fn lemma_status_order_transitive(a: Status, b: Status, c: Status)
    requires
        !has_nan_ratio(a),
        !has_nan_ratio(b),
        !has_nan_ratio(c),
    ensures
        !status_after(a, b) && !status_after(b, c) ==> !status_after(a, c),
        status_order(a, b) == Ordering::Less && status_order(b, c) == Ordering::Less
            ==> status_order(a, c) == Ordering::Less,
{
}

/// A status of an earlier variant is always listed first.
pub proof fn lemma_status_rank_first(a: Status, b: Status)
    requires
        rank(a) < rank(b),
    ensures
        status_order(a, b) == Ordering::Less,
{
}


/// A processing status always shows a bar filled to its own ratio, whatever
/// the ratio; only a success shows the full bar; a pending or failed status
/// shows nothing.
pub proof fn lemma_indicator_cases(status: Status, bits: u32)
    ensures
        status_indicator(Status::Processing(bits)) == Indicator::Partial(bits),
        status_indicator(status) == Indicator::Complete <==> status is Success,
        status_indicator(status) == Indicator::Blank <==> (status is Pending || status is Failed),
        status_indicator(status) is Partial <==> status is Processing,
{
}

/// Each variant has its own colour family: pending gray, processing blue,
/// success green, failed red.
pub proof fn lemma_tone_cases(status: Status)
    ensures
        status_tone(status) == Tone::Gray <==> status is Pending,
        status_tone(status) == Tone::Blue <==> status is Processing,
        status_tone(status) == Tone::Green <==> status is Success,
        status_tone(status) == Tone::Red <==> status is Failed,
{
}

/// The listing order by variant: pending, then processing, then success,
/// then failed, whatever the ratios and messages.
pub proof fn lemma_status_variant_order(bits: u32, e: String)
    ensures
        status_order(Status::Pending, Status::Processing(bits)) == Ordering::Less,
        status_order(Status::Processing(bits), Status::Success) == Ordering::Less,
        status_order(Status::Success, Status::Failed(e)) == Ordering::Less,
        status_order(Status::Pending, Status::Success) == Ordering::Less,
        status_order(Status::Pending, Status::Failed(e)) == Ordering::Less,
        status_order(Status::Processing(bits), Status::Failed(e)) == Ordering::Less,
        status_order(Status::Pending, Status::Pending) == Ordering::Equal,
        status_order(Status::Success, Status::Success) == Ordering::Equal,
{
}

/// Two failures are level whatever their messages.
pub proof fn lemma_failures_level(e1: String, e2: String)
    ensures
        status_order(Status::Failed(e1), Status::Failed(e2)) == Ordering::Equal,
{
}

/// Two processing ratios compare as the binary32 numbers they encode: a NaN
/// is level with any ratio; the two zeros are level; two non-negative
/// numbers compare by their bit patterns; two negative numbers compare
/// reversed; a negative number is below a non-negative one unless both are
/// zero.
pub proof fn lemma_ratio_order(x: u32, y: u32)
    ensures
        (x > 0x7f80_0000 && x < 0x8000_0000) || x > 0xff80_0000 ==> status_order(
            Status::Processing(x),
            Status::Processing(y),
        ) == Ordering::Equal,
        (x == 0 || x == 0x8000_0000) && (y == 0 || y == 0x8000_0000) ==> status_order(
            Status::Processing(x),
            Status::Processing(y),
        ) == Ordering::Equal,
        x <= 0x7f80_0000 && y <= 0x7f80_0000 && x < y ==> status_order(
            Status::Processing(x),
            Status::Processing(y),
        ) == Ordering::Less,
        x <= 0x7f80_0000 && y <= 0x7f80_0000 && x == y ==> status_order(
            Status::Processing(x),
            Status::Processing(y),
        ) == Ordering::Equal,
        0x8000_0000 <= x <= 0xff80_0000 && 0x8000_0000 <= y <= 0xff80_0000 && x > y
            ==> status_order(Status::Processing(x), Status::Processing(y)) == Ordering::Less,
        0x8000_0000 <= x <= 0xff80_0000 && y <= 0x7f80_0000 && !(x == 0x8000_0000 && y == 0)
            ==> status_order(Status::Processing(x), Status::Processing(y)) == Ordering::Less,
{
}

/// The text of a failure is the failure prefix followed by its message, the
/// same prefix for every message.
pub proof fn lemma_failure_text(e1: String, e2: String)
    ensures
        status_text(Status::Failed(e1)).len() >= e1@.len(),
        status_text(Status::Failed(e1)).subrange(
            status_text(Status::Failed(e1)).len() - e1@.len(),
            status_text(Status::Failed(e1)).len() as int,
        ) == e1@,
        status_text(Status::Failed(e1)).subrange(
            0,
            status_text(Status::Failed(e1)).len() - e1@.len(),
        ) == status_text(Status::Failed(e2)).subrange(
            0,
            status_text(Status::Failed(e2)).len() - e2@.len(),
        ),
{
    let t1 = status_text(Status::Failed(e1));
    let t2 = status_text(Status::Failed(e2));
    assert(t1.subrange(t1.len() - e1@.len(), t1.len() as int) =~= e1@);
    assert(t1.subrange(0, t1.len() - e1@.len()) =~= "处理失败: "@);
    assert(t2.subrange(0, t2.len() - e2@.len()) =~= "处理失败: "@);
}

/// The texts of pending, processing and success differ from each other and
/// from every failure's text.
pub proof fn lemma_texts_distinct(a: Status, b: Status)
    requires
        rank(a) != rank(b),
    ensures
        status_text(a) != status_text(b),
{
    reveal_strlit("等待处理");
    reveal_strlit("处理中");
    reveal_strlit("处理成功");
    reveal_strlit("处理失败: ");
    let ta = status_text(a);
    let tb = status_text(b);
    if ta == tb {
        assert(ta.len() == tb.len());
        if rank(a) == 0 || rank(b) == 0 {
            assert(ta[0] == tb[0]);
        } else {
            assert(ta[2] == tb[2]);
        }
    }
}


/// The texts shown: 等待处理 (pending), 处理中 (processing), 处理成功
/// (success), and 处理失败: followed by the message (failed).
pub proof fn lemma_status_texts(bits: u32, e: String)
    ensures
        status_text(Status::Pending) == seq!['等', '待', '处', '理'],
        status_text(Status::Processing(bits)) == seq!['处', '理', '中'],
        status_text(Status::Success) == seq!['处', '理', '成', '功'],
        status_text(Status::Failed(e)) == seq!['处', '理', '失', '败', ':', ' '] + e@,
{
    reveal_strlit("等待处理");
    reveal_strlit("处理中");
    reveal_strlit("处理成功");
    reveal_strlit("处理失败: ");
    assert("等待处理"@ =~= seq!['等', '待', '处', '理']);
    assert("处理中"@ =~= seq!['处', '理', '中']);
    assert("处理成功"@ =~= seq!['处', '理', '成', '功']);
    assert("处理失败: "@ =~= seq!['处', '理', '失', '败', ':', ' ']);
}

} // verus!

