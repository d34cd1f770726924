//! The member names at the top level of a log line. A record may name each of
//! its members `type`, `timestamp` and `payload` at most once; a parsed JSON
//! value keeps only the last of repeated members, so the names are read from
//! the line's bytes.
//!
//! The scan follows the JSON text: strings (with their escapes) and nesting
//! depth. A name is kept as its code units: each raw byte of the name, and one
//! unit for each escape (`\n`, `\"`, `\u0074`, ...). An ASCII name such as
//! `type` equals the decoded name exactly when the units equal its letters.
use vstd::prelude::*;

verus! {

/// Where the scan of a line stands.
pub struct ScanView {
    /// How many objects and arrays are open.
    pub depth: nat,
    /// The outermost value is an object.
    pub top_object: bool,
    /// Inside a string.
    pub in_str: bool,
    /// 0 outside an escape, 1 right after a backslash, 2 to 5 inside `\u`
    /// with 0 to 3 hex digits read.
    pub esc: nat,
    /// The hex digits of a `\u` escape read so far.
    pub hex: nat,
    /// The next string at the top level of the object names a member.
    pub expect_key: bool,
    /// The current string names a top-level member.
    pub is_key: bool,
    /// The code units of the member name read so far.
    pub cur: Seq<u32>,
    /// How many top-level members are named `type`, `timestamp`, `payload`.
    pub kinds: nat,
    pub stamps: nat,
    pub payloads: nat,
}

pub open spec fn scan_start() -> ScanView {
    ScanView {
        depth: 0,
        top_object: false,
        in_str: false,
        esc: 0,
        hex: 0,
        expect_key: false,
        is_key: false,
        cur: Seq::empty(),
        kinds: 0,
        stamps: 0,
        payloads: 0,
    }
}

/// The letters of `type`.
pub open spec fn type_units() -> Seq<u32> {
    seq![116u32, 121u32, 112u32, 101u32]
}

/// The letters of `timestamp`.
pub open spec fn timestamp_units() -> Seq<u32> {
    seq![116u32, 105u32, 109u32, 101u32, 115u32, 116u32, 97u32, 109u32, 112u32]
}

/// The letters of `payload`.
pub open spec fn payload_units() -> Seq<u32> {
    seq![112u32, 97u32, 121u32, 108u32, 111u32, 97u32, 100u32]
}

/// The value of a hex digit (0 for any other byte).
pub open spec fn hex_digit(b: u8) -> nat {
    if 48 <= b <= 57 {
        (b - 48) as nat
    } else if 97 <= b <= 102 {
        (b - 87) as nat
    } else if 65 <= b <= 70 {
        (b - 55) as nat
    } else {
        0
    }
}

/// The character that a one-letter escape stands for.
pub open spec fn escape_unit(b: u8) -> u32 {
    if b == 110 {
        10
    } else if b == 116 {
        9
    } else if b == 114 {
        13
    } else if b == 98 {
        8
    } else if b == 102 {
        12
    } else {
        b as u32
    }
}

/// A name unit added to the current member name, when the string names one.
pub open spec fn with_unit(s: ScanView, unit: u32) -> Seq<u32> {
    if s.is_key {
        s.cur.push(unit)
    } else {
        s.cur
    }
}

/// The closing quote of a string; a member name is counted.
pub open spec fn close_string(s: ScanView) -> ScanView {
    if s.is_key {
        ScanView {
            in_str: false,
            is_key: false,
            cur: Seq::empty(),
            kinds: s.kinds + if s.cur == type_units() { 1nat } else { 0nat },
            stamps: s.stamps + if s.cur == timestamp_units() { 1nat } else { 0nat },
            payloads: s.payloads + if s.cur == payload_units() { 1nat } else { 0nat },
            ..s
        }
    } else {
        ScanView { in_str: false, ..s }
    }
}

/// One byte of the line.
pub open spec fn scan_step(s: ScanView, b: u8) -> ScanView {
    if s.in_str {
        if s.esc == 0 {
            if b == 34 {
                close_string(s)
            } else if b == 92 {
                ScanView { esc: 1, ..s }
            } else {
                ScanView { cur: with_unit(s, b as u32), ..s }
            }
        } else if s.esc == 1 {
            if b == 117 {
                ScanView { esc: 2, hex: 0, ..s }
            } else {
                ScanView { esc: 0, cur: with_unit(s, escape_unit(b)), ..s }
            }
        } else {
            let hex = s.hex * 16 + hex_digit(b);
            if s.esc >= 5 {
                ScanView { esc: 0, hex: hex, cur: with_unit(s, hex as u32), ..s }
            } else {
                ScanView { esc: s.esc + 1, hex: hex, ..s }
            }
        }
    } else if b == 34 {
        let key = s.depth == 1 && s.top_object && s.expect_key;
        ScanView { in_str: true, is_key: key, expect_key: s.expect_key && !key, cur: Seq::empty(), ..s }
    } else if b == 123 || b == 91 {
        if s.depth == 0 {
            ScanView { depth: 1, top_object: b == 123, expect_key: b == 123, ..s }
        } else {
            ScanView { depth: s.depth + 1, ..s }
        }
    } else if b == 125 || b == 93 {
        ScanView {
            depth: if s.depth > 0 {
                (s.depth - 1) as nat
            } else {
                0
            },
            ..s
        }
    } else if b == 44 && s.depth == 1 {
        ScanView { expect_key: true, ..s }
    } else {
        s
    }
}

/// The scan of a whole line.
pub open spec fn scan(line: Seq<u8>) -> ScanView
    decreases line.len(),
{
    if line.len() == 0 {
        scan_start()
    } else {
        scan_step(scan(line.drop_last()), line.last())
    }
}

/// The line's top-level object names `type`, `timestamp` or `payload` twice or more.
pub open spec fn repeats_record_member(line: Seq<u8>) -> bool {
    let s = scan(line);
    s.kinds >= 2 || s.stamps >= 2 || s.payloads >= 2
}

/// The scan's state in executable form.
struct Scanner {
    depth: usize,
    top_object: bool,
    in_str: bool,
    esc: u8,
    hex: u32,
    expect_key: bool,
    is_key: bool,
    cur: Vec<u32>,
    kinds: usize,
    stamps: usize,
    payloads: usize,
}

impl Scanner {
    spec fn view(&self) -> ScanView {
        ScanView {
            depth: self.depth as nat,
            top_object: self.top_object,
            in_str: self.in_str,
            esc: self.esc as nat,
            hex: self.hex as nat,
            expect_key: self.expect_key,
            is_key: self.is_key,
            cur: self.cur@,
            kinds: self.kinds as nat,
            stamps: self.stamps as nat,
            payloads: self.payloads as nat,
        }
    }

    /// The escape state is in range and the hex digits so far fit their count.
    spec fn wf(&self) -> bool {
        &&& self.esc <= 5
        &&& (self.esc == 2 ==> self.hex < 1)
        &&& (self.esc == 3 ==> self.hex < 16)
        &&& (self.esc == 4 ==> self.hex < 256)
        &&& (self.esc == 5 ==> self.hex < 4096)
    }
}

fn hex_digit_of(b: u8) -> (d: u32)
    ensures
        d == hex_digit(b),
        d < 16,
{
    if 48 <= b && b <= 57 {
        (b - 48) as u32
    } else if 97 <= b && b <= 102 {
        (b - 87) as u32
    } else if 65 <= b && b <= 70 {
        (b - 55) as u32
    } else {
        0
    }
}

fn escape_unit_of(b: u8) -> (u: u32)
    ensures
        u == escape_unit(b),
{
    if b == 110 {
        10
    } else if b == 116 {
        9
    } else if b == 114 {
        13
    } else if b == 98 {
        8
    } else if b == 102 {
        12
    } else {
        b as u32
    }
}

fn units_equal(a: &Vec<u32>, b: &[u32]) -> (same: bool)
    ensures
        same == (a@ == b@),
{
    if a.len() != b.len() {
        return false;
    }
    let mut i: usize = 0;
    while i < a.len()
        invariant
            a@.len() == b@.len(),
            i <= a@.len(),
            forall|j: int| 0 <= j < i ==> a@[j] == b@[j],
        decreases a@.len() - i,
    {
        if a[i] != b[i] {
            return false;
        }
        i = i + 1;
    }
    assert(a@ =~= b@);
    true
}

fn is_type(cur: &Vec<u32>) -> (found: bool)
    ensures
        found == (cur@ == type_units()),
{
    let word: [u32; 4] = [116, 121, 112, 101];
    assert(word@ =~= type_units());
    units_equal(cur, word.as_slice())
}

fn is_timestamp(cur: &Vec<u32>) -> (found: bool)
    ensures
        found == (cur@ == timestamp_units()),
{
    let word: [u32; 9] = [116, 105, 109, 101, 115, 116, 97, 109, 112];
    assert(word@ =~= timestamp_units());
    units_equal(cur, word.as_slice())
}

fn is_payload(cur: &Vec<u32>) -> (found: bool)
    ensures
        found == (cur@ == payload_units()),
{
    let word: [u32; 7] = [112, 97, 121, 108, 111, 97, 100];
    assert(word@ =~= payload_units());
    units_equal(cur, word.as_slice())
}

impl Scanner {
    fn push_unit(&mut self, unit: u32)
        ensures
            final(self)@ == (ScanView { cur: with_unit(old(self)@, unit), ..old(self)@ }),
    {
        if self.is_key {
            self.cur.push(unit);
        }
    }

    fn close_string(&mut self)
        requires
            old(self).kinds < usize::MAX,
            old(self).stamps < usize::MAX,
            old(self).payloads < usize::MAX,
        ensures
            final(self)@ == close_string(old(self)@),
    {
        if self.is_key {
            if is_type(&self.cur) {
                self.kinds = self.kinds + 1;
            }
            if is_timestamp(&self.cur) {
                self.stamps = self.stamps + 1;
            }
            if is_payload(&self.cur) {
                self.payloads = self.payloads + 1;
            }
            self.cur = Vec::new();
            self.is_key = false;
        }
        self.in_str = false;
    }

    fn step(&mut self, b: u8)
        requires
            old(self).wf(),
            old(self).depth < usize::MAX,
            old(self).kinds < usize::MAX,
            old(self).stamps < usize::MAX,
            old(self).payloads < usize::MAX,
        ensures
            final(self).wf(),
            final(self)@ == scan_step(old(self)@, b),
            final(self).depth <= old(self).depth + 1,
            final(self).kinds <= old(self).kinds + 1,
            final(self).stamps <= old(self).stamps + 1,
            final(self).payloads <= old(self).payloads + 1,
    {
        if self.in_str {
            if self.esc == 0 {
                if b == 34 {
                    self.close_string();
                } else if b == 92 {
                    self.esc = 1;
                } else {
                    self.push_unit(b as u32);
                }
            } else if self.esc == 1 {
                if b == 117 {
                    self.esc = 2;
                    self.hex = 0;
                } else {
                    self.esc = 0;
                    let unit: u32 = escape_unit_of(b);
                    self.push_unit(unit);
                }
            } else {
                let hex: u32 = self.hex * 16 + hex_digit_of(b);
                self.hex = hex;
                if self.esc >= 5 {
                    self.esc = 0;
                    self.push_unit(hex);
                } else {
                    self.esc = self.esc + 1;
                }
            }
        } else if b == 34 {
            let key: bool = self.depth == 1 && self.top_object && self.expect_key;
            self.in_str = true;
            self.is_key = key;
            self.expect_key = self.expect_key && !key;
            self.cur = Vec::new();
        } else if b == 123 || b == 91 {
            if self.depth == 0 {
                self.depth = 1;
                self.top_object = b == 123;
                self.expect_key = b == 123;
            } else {
                self.depth = self.depth + 1;
            }
        } else if b == 125 || b == 93 {
            if self.depth > 0 {
                self.depth = self.depth - 1;
            }
        } else if b == 44 && self.depth == 1 {
            self.expect_key = true;
        }
    }
}

/// Whether the line's top-level object names `type`, `timestamp` or
/// `payload` more than once.
pub fn has_repeated_record_member(line: &[u8]) -> (repeated: bool)
    ensures
        repeated == repeats_record_member(line@),
{
    let mut s = Scanner {
        depth: 0,
        top_object: false,
        in_str: false,
        esc: 0,
        hex: 0,
        expect_key: false,
        is_key: false,
        cur: Vec::new(),
        kinds: 0,
        stamps: 0,
        payloads: 0,
    };
    assert(s@.cur =~= scan_start().cur);
    assert(line@.subrange(0, 0) =~= Seq::<u8>::empty());
    let mut i: usize = 0;
    while i < line.len()
        invariant
            i <= line@.len(),
            s.wf(),
            s@ == scan(line@.subrange(0, i as int)),
            s.depth <= i,
            s.kinds <= i,
            s.stamps <= i,
            s.payloads <= i,
        decreases line@.len() - i,
    {
        let ghost before = line@.subrange(0, i as int);
        s.step(line[i]);
        assert(line@.subrange(0, i + 1).drop_last() =~= before);
        i = i + 1;
    }
    assert(line@.subrange(0, line@.len() as int) =~= line@);
    s.kinds >= 2 || s.stamps >= 2 || s.payloads >= 2
}

} // verus!
