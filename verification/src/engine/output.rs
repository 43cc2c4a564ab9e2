//! Names of the files that a recording produces.

use crate::error::{internal, MediaError, MediaResult};
use crate::text::{decimal, digits_value, padded_decimal, push_decimal, push_padded};
use vstd::prelude::*;

verus! {

/// A local date and time.
#[derive(Debug, Clone, Copy, PartialEq, Eq, Structural)]
pub struct LocalTime {
    pub year: u16,
    pub month: u16,
    pub day: u16,
    pub hour: u16,
    pub minute: u16,
    pub second: u16,
}

/// The time stamp in file names: `YYYY-MM-DD_HH-MM-SS`.
pub open spec fn stamp_text(t: LocalTime) -> Seq<char> {
    padded_decimal(t.year as nat, 4) + "-"@ + padded_decimal(t.month as nat, 2) + "-"@
        + padded_decimal(t.day as nat, 2) + "_"@ + padded_decimal(t.hour as nat, 2) + "-"@
        + padded_decimal(t.minute as nat, 2) + "-"@ + padded_decimal(t.second as nat, 2)
}

pub fn local_timestamp(t: LocalTime) -> (s: String)
    ensures
        s@ == stamp_text(t),
{
    let mut s: String = String::new();
    push_padded(&mut s, t.year as u64, 4);
    s.append("-");
    push_padded(&mut s, t.month as u64, 2);
    s.append("-");
    push_padded(&mut s, t.day as u64, 2);
    s.append("_");
    push_padded(&mut s, t.hour as u64, 2);
    s.append("-");
    push_padded(&mut s, t.minute as u64, 2);
    s.append("-");
    push_padded(&mut s, t.second as u64, 2);
    assert(s@ =~= stamp_text(t));
    s
}

/// The name of the `i`-th attempt: only from the second on it carries a number.
pub open spec fn final_name(stamp: Seq<char>, i: nat) -> Seq<char> {
    "ScreenLite_"@ + stamp + (if i == 0 {
        Seq::empty()
    } else {
        "_"@ + decimal(i)
    }) + ".mp4"@
}

/// The name that the file has until it is complete.
pub open spec fn partial_name(stamp: Seq<char>, i: nat) -> Seq<char> {
    final_name(stamp, i) + ".partial"@
}

/// How many names are tried.
pub const NAME_ATTEMPTS: u32 = 1000;

/// A pair of file names: for the unfinished and for the complete file.
#[derive(Debug)]
pub struct OutputNames {
    pub partial: String,
    pub complete: String,
}

/// The search for names that are not in use.
#[derive(Debug)]
pub struct NameSearch {
    stamp: String,
    attempt: u32,
}

impl NameSearch {
    pub closed spec fn stamp_view(&self) -> Seq<char> {
        self.stamp@
    }

    pub closed spec fn tried(&self) -> nat {
        self.attempt as nat
    }

    pub fn new(stamp: String) -> (s: NameSearch)
        ensures
            s.stamp_view() == stamp@,
            s.tried() == 0,
    {
        NameSearch { stamp, attempt: 0 }
    }

    /// The names to try next, or an error once all attempts are used up.
    pub fn candidate(&self) -> (r: MediaResult<OutputNames>)
        ensures
            r is Ok <==> self.tried() < NAME_ATTEMPTS,
            r matches Ok(names) ==> {
                &&& names.complete@ == final_name(self.stamp_view(), self.tried())
                &&& names.partial@ == partial_name(self.stamp_view(), self.tried())
            },
            r matches Err(e) ==> (e matches MediaError::Internal(text) && text@
                == "无法生成唯一输出文件名"@),
    {
        if self.attempt >= NAME_ATTEMPTS {
            return Err(internal("无法生成唯一输出文件名"));
        }
        let mut complete: String = String::from_str("ScreenLite_");
        complete.append(self.stamp.as_str());
        if self.attempt > 0 {
            complete.append("_");
            push_decimal(&mut complete, self.attempt as u64);
        }
        complete.append(".mp4");
        assert(complete@ =~= final_name(self.stamp@, self.attempt as nat));
        let partial: String = complete.clone().concat(".partial");
        Ok(OutputNames { partial, complete })
    }

    /// One of the two names is in use.
    pub fn reject(&mut self)
        requires
            old(self).tried() < NAME_ATTEMPTS,
        ensures
            final(self).stamp_view() == old(self).stamp_view(),
            final(self).tried() == old(self).tried() + 1,
    {
        self.attempt = self.attempt + 1;
    }
}

/// Decimal digits are read back as the number they were written for.
pub proof fn law_decimal_round_trip(n: nat)
    ensures
        digits_value(decimal(n)) == Some(n),
        decimal(n).len() > 0,
    decreases n,
{
    if n >= 10 {
        law_decimal_round_trip(n / 10);
        assert(decimal(n).drop_last() == decimal(n / 10));
    } else {
        assert(decimal(n).drop_last() == Seq::<char>::empty());
        assert(digits_value(Seq::<char>::empty()) == Some(0nat));
    }
}

/// Two attempts never share a name.
pub proof fn law_names_are_distinct(stamp: Seq<char>, i: nat, j: nat)
    requires
        i != j,
    ensures
        final_name(stamp, i) != final_name(stamp, j),
        partial_name(stamp, i) != partial_name(stamp, j),
{
    let head = "ScreenLite_"@ + stamp;
    let a = if i == 0 {
        Seq::<char>::empty()
    } else {
        "_"@ + decimal(i)
    };
    let b = if j == 0 {
        Seq::<char>::empty()
    } else {
        "_"@ + decimal(j)
    };
    law_decimal_round_trip(i);
    law_decimal_round_trip(j);
    reveal_strlit("_");
    if final_name(stamp, i) == final_name(stamp, j) {
        lemma_middle(head, a, b, ".mp4"@);
        if i > 0 && j > 0 {
            assert(a.skip(1) =~= decimal(i));
            assert(b.skip(1) =~= decimal(j));
        }
        assert(false);
    }
    if partial_name(stamp, i) == partial_name(stamp, j) {
        let x = final_name(stamp, i);
        let y = final_name(stamp, j);
        assert((x + ".partial"@).len() == x.len() + ".partial"@.len());
        assert((y + ".partial"@).len() == y.len() + ".partial"@.len());
        assert((x + ".partial"@).take(x.len() as int) =~= x);
        assert((y + ".partial"@).take(y.len() as int) =~= y);
        assert(false);
    }
}

proof fn lemma_middle(head: Seq<char>, a: Seq<char>, b: Seq<char>, tail: Seq<char>)
    requires
        head + a + tail == head + b + tail,
    ensures
        a == b,
{
    let x = head + a + tail;
    let y = head + b + tail;
    assert(x.len() == head.len() + a.len() + tail.len());
    assert(y.len() == head.len() + b.len() + tail.len());
    assert(x.subrange(head.len() as int, (head.len() + a.len()) as int) =~= a);
    assert(y.subrange(head.len() as int, (head.len() + b.len()) as int) =~= b);
}

/// The output directory cannot be written to.
pub fn not_writable(dir: &str, why: &str) -> (e: MediaError)
    ensures
        e matches MediaError::OutputDirectoryNotWritable { path } && path@ == dir@ + "（"@ + why@
            + "）"@,
{
    MediaError::OutputDirectoryNotWritable {
        path: dir.to_owned().concat("（").concat(why).concat("）"),
    }
}

/// The time stamp reads from the year down to the second, each at its place.
pub proof fn law_stamps_read_from_year_to_second(t: LocalTime)
    requires
        1000 <= t.year <= 9999,
        t.month < 100 && t.day < 100 && t.hour < 100 && t.minute < 100 && t.second < 100,
    ensures
        stamp_text(t).len() == 19,
        stamp_text(t)[0] as u32 == 48 + t.year / 1000,
        stamp_text(t)[3] as u32 == 48 + t.year % 10,
        stamp_text(t)[4] == '-' && stamp_text(t)[7] == '-',
        stamp_text(t)[5] as u32 == 48 + t.month / 10 && stamp_text(t)[6] as u32 == 48 + t.month
            % 10,
        stamp_text(t)[8] as u32 == 48 + t.day / 10 && stamp_text(t)[9] as u32 == 48 + t.day % 10,
        stamp_text(t)[10] == '_',
        stamp_text(t)[11] as u32 == 48 + t.hour / 10 && stamp_text(t)[12] as u32 == 48 + t.hour
            % 10,
        stamp_text(t)[13] == '-' && stamp_text(t)[16] == '-',
        stamp_text(t)[14] as u32 == 48 + t.minute / 10 && stamp_text(t)[15] as u32 == 48 + t.minute
            % 10,
        stamp_text(t)[17] as u32 == 48 + t.second / 10 && stamp_text(t)[18] as u32 == 48 + t.second
            % 10,
{
    reveal_strlit("-");
    reveal_strlit("_");
    lemma_two_digits(t.month as nat);
    lemma_two_digits(t.day as nat);
    lemma_two_digits(t.hour as nat);
    lemma_two_digits(t.minute as nat);
    lemma_two_digits(t.second as nat);
    reveal_with_fuel(decimal, 5);
    assert(padded_decimal(t.year as nat, 4) == decimal(t.year as nat));
    assert(t.year / 10 / 10 / 10 == t.year / 1000);
}

proof fn lemma_two_digits(n: nat)
    requires
        n < 100,
    ensures
        padded_decimal(n, 2).len() == 2,
        padded_decimal(n, 2)[0] as u32 == 48 + n / 10,
        padded_decimal(n, 2)[1] as u32 == 48 + n % 10,
{
    reveal_with_fuel(decimal, 3);
    reveal_with_fuel(crate::text::fixed_decimal, 3);
}

/// The name of a file shows its time stamp behind the name of the program and ends as a film does;
/// until the file is complete the name goes on.
pub proof fn law_names_show_the_stamp(stamp: Seq<char>, i: nat)
    ensures
        ({
            let name = final_name(stamp, i);
            &&& name.len() >= stamp.len() + 15
            &&& name.subrange(0, 11) == "ScreenLite_"@
            &&& name.subrange(11, 11 + stamp.len() as int) == stamp
            &&& name.subrange(name.len() - 4, name.len() as int) == ".mp4"@
            &&& i == 0 ==> name.len() == stamp.len() + 15
            &&& i > 0 ==> name[11 + stamp.len() as int] == '_'
            &&& i > 0 ==> name.subrange(12 + stamp.len() as int, name.len() - 4) == decimal(i)
            &&& partial_name(stamp, i).take(name.len() as int) == name
            &&& partial_name(stamp, i).skip(name.len() as int) == ".partial"@
        }),
{
    reveal_strlit("ScreenLite_");
    reveal_strlit("_");
    reveal_strlit(".mp4");
    let name = final_name(stamp, i);
    let middle = if i == 0 {
        Seq::<char>::empty()
    } else {
        "_"@ + decimal(i)
    };
    assert(name == "ScreenLite_"@ + stamp + middle + ".mp4"@);
    assert(name.subrange(0, 11) =~= "ScreenLite_"@);
    assert(name.subrange(11, 11 + stamp.len() as int) =~= stamp);
    assert(name.subrange(name.len() - 4, name.len() as int) =~= ".mp4"@);
    if i > 0 {
        assert(name.subrange(12 + stamp.len() as int, name.len() - 4) =~= decimal(i));
    }
    assert(partial_name(stamp, i).take(name.len() as int) =~= name);
    assert(partial_name(stamp, i).skip(name.len() as int) =~= ".partial"@);
}

} // verus!
