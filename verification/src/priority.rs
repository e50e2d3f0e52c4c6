use vstd::prelude::*;

verus! {

/// Priority classes for jobs; each selects one work-queue stream.
#[derive(Debug, Clone, Copy, PartialEq, Eq, Structural)]
pub enum Priority {
    /// High priority jobs
    High,
    /// Medium priority jobs
    Medium,
    /// Low priority jobs
    Low,
}

impl Priority {
    /// Scheduling rank: a lower rank is fetched first.
    pub open spec fn rank(self) -> int {
        match self {
            Priority::High => 0,
            Priority::Medium => 1,
            Priority::Low => 2,
        }
    }

    /// The lowercase textual form used in stream, subject and consumer names.
    pub open spec fn spec_name(self) -> Seq<char> {
        match self {
            Priority::High => "high"@,
            Priority::Medium => "medium"@,
            Priority::Low => "low"@,
        }
    }

    /// The same lowercase form, as the bytes written into the job envelope.
    pub open spec fn name_bytes(self) -> Seq<u8> {
        match self {
            Priority::High => seq![104u8, 105u8, 103u8, 104u8],
            Priority::Medium => seq![109u8, 101u8, 100u8, 105u8, 117u8, 109u8],
            Priority::Low => seq![108u8, 111u8, 119u8],
        }
    }

    /// Lowercase name, as used in stream and subject names.
    pub fn name(self) -> (r: &'static str)
        ensures
            r@ == self.spec_name(),
    {
        match self {
            Priority::High => "high",
            Priority::Medium => "medium",
            Priority::Low => "low",
        }
    }

    /// Lowercase name as bytes, as written into the job envelope.
    pub fn name_ascii(self) -> (r: Vec<u8>)
        ensures
            r@ == self.name_bytes(),
    {
        let mut v: Vec<u8> = Vec::new();
        match self {
            Priority::High => {
                v.push(104);
                v.push(105);
                v.push(103);
                v.push(104);
            }
            Priority::Medium => {
                v.push(109);
                v.push(101);
                v.push(100);
                v.push(105);
                v.push(117);
                v.push(109);
            }
            Priority::Low => {
                v.push(108);
                v.push(111);
                v.push(119);
            }
        }
        proof {
            assert(v@ =~= self.name_bytes());
        }
        v
    }

    /// The three priorities in fetch order, highest first.
    pub fn fetch_order() -> (r: Vec<Priority>)
        ensures
            r@ == seq![Priority::High, Priority::Medium, Priority::Low],
    {
        let mut v: Vec<Priority> = Vec::new();
        v.push(Priority::High);
        v.push(Priority::Medium);
        v.push(Priority::Low);
        proof {
            assert(v@ =~= seq![Priority::High, Priority::Medium, Priority::Low]);
        }
        v
    }
}

impl Default for Priority {
    /// The default priority is `Medium`.
    fn default() -> (r: Self)
        ensures
            r == Priority::Medium,
    {
        Priority::Medium
    }
}

} // verus!
