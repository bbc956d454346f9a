//! How kepubify is run and how its end is judged.

use vstd::prelude::*;
use crate::error::{AppError, AppResult, ErrorStatus};
use crate::text::{extend_str, string_of};

verus! {

/// The arguments kepubify is run with: verbose, update in place off the
/// input, writing `output_name` from `input_name` (both file names in the
/// working directory).
pub fn kepubify_arguments(output_name: &str, input_name: &str) -> (r: Vec<String>)
    ensures
        r@.len() == 5,
        r@[0]@ == "-v"@,
        r@[1]@ == "-u"@,
        r@[2]@ == "-o"@,
        r@[3]@ == output_name@,
        r@[4]@ == input_name@,
{
    let mut r: Vec<String> = Vec::new();
    r.push(String::from_str("-v"));
    r.push(String::from_str("-u"));
    r.push(String::from_str("-o"));
    r.push(String::from_str(output_name));
    r.push(String::from_str(input_name));
    r
}

/// A resource limit set on the converter process.
#[derive(Debug, Clone, Copy, PartialEq, Eq, Structural)]
pub enum ResourceLimit {
    /// Address space, in bytes.
    AddressSpace,
    /// CPU time, in seconds.
    CpuTime,
    /// Size of any written file, in bytes.
    FileSize,
    /// Open file descriptors.
    OpenFiles,
}

/// The limits kepubify runs under: 1 GiB of address space, 300 s of CPU
/// time, files up to 600 MiB, 256 open files.
pub fn process_limits() -> (r: Vec<(ResourceLimit, u64)>)
    ensures
        r@ == seq![
            (ResourceLimit::AddressSpace, 1_073_741_824u64),
            (ResourceLimit::CpuTime, 300u64),
            (ResourceLimit::FileSize, 629_145_600u64),
            (ResourceLimit::OpenFiles, 256u64),
        ],
{
    let r = vec![
        (ResourceLimit::AddressSpace, 1_073_741_824u64),
        (ResourceLimit::CpuTime, 300u64),
        (ResourceLimit::FileSize, 629_145_600u64),
        (ResourceLimit::OpenFiles, 256u64),
    ];
    assert(r@ =~= seq![
        (ResourceLimit::AddressSpace, 1_073_741_824u64),
        (ResourceLimit::CpuTime, 300u64),
        (ResourceLimit::FileSize, 629_145_600u64),
        (ResourceLimit::OpenFiles, 256u64),
    ]);
    r
}

/// How a conversion ended.
pub enum ConversionEnd {
    /// The time limit passed first.
    TimedOut,
    /// The process exited; whether successfully, and its exit status as text.
    Exited(bool, String),
}

/// A conversion succeeds when kepubify exits successfully in time.
pub fn conversion_result(end: ConversionEnd) -> (r: AppResult<()>)
    ensures
        r is Ok <==> (end matches ConversionEnd::Exited(ok, _) && ok),
        end is TimedOut ==> (r matches Err(e) && e.status == ErrorStatus::InternalServerError
            && e.details@ == "kepubify conversion timed out"@),
        end matches ConversionEnd::Exited(ok, status) ==> (!ok ==> (r matches Err(e)
            && e.status == ErrorStatus::InternalServerError
            && e.details@ == "kepubify exited with status "@ + status@)),
{
    match end {
        ConversionEnd::TimedOut => Err(AppError::internal("kepubify conversion timed out")),
        ConversionEnd::Exited(ok, status) => {
            if ok {
                Ok(())
            } else {
                let mut v = crate::text::chars_of("kepubify exited with status ");
                extend_str(&mut v, status.as_str());
                let d = string_of(&v);
                Err(AppError::internal(d.as_str()))
            }
        },
    }
}

} // verus!
