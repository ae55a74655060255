//! What holds of the way from the answers of the driver to readings.

use crate::binary64;
use crate::binary64::{Binary64, Number};
use crate::fusion_laws;
use crate::rounding::TWO_53;
use crate::sensors;
use crate::sensors::{GpuCaps, GpuReads, MarginSource, ReadError, Sample};
use crate::signals;
use crate::signals::SignalReadings;
use vstd::arithmetic::power2::*;
use vstd::prelude::*;

verus! {

/// With whole degrees, the control temperature is the larger of the GPU's and the
/// CPU's less the offset, whatever the offset.
pub proof fn law_control_temp_in_degrees(gpu: nat, cpu: nat, offset: nat)
    requires
        gpu < TWO_53,
        offset <= cpu < TWO_53,
    ensures
        sensors::control_number(
            Some(binary64::whole(gpu)),
            Some(binary64::whole(cpu)),
            binary64::whole(offset),
        ) == (
            Some(
                binary64::whole(
                    if gpu < cpu - offset {
                        (cpu - offset) as nat
                    } else {
                        gpu
                    },
                ),
            ),
            false,
        ),
{
    fusion_laws::lemma_whole_difference(cpu, offset);
    binary64::lemma_whole_exact(gpu);
    binary64::law_naturals_keep_their_order(gpu, (cpu - offset) as nat);
}

/// A larger offset never makes the control temperature higher, and a hotter GPU
/// never makes it lower, in whole degrees.
pub proof fn law_control_temp_is_monotone(gpu: nat, cpu: nat, offset: nat, more: nat, warmer: nat)
    requires
        gpu <= warmer < TWO_53,
        offset <= more <= cpu < TWO_53,
    ensures
        ({
            let base = sensors::control_number(
                Some(binary64::whole(gpu)),
                Some(binary64::whole(cpu)),
                binary64::whole(offset),
            ).0->0;
            &&& sensors::control_number(
                Some(binary64::whole(gpu)),
                Some(binary64::whole(cpu)),
                binary64::whole(more),
            ).0->0.at_most(base)
            &&& base.at_most(
                sensors::control_number(
                    Some(binary64::whole(warmer)),
                    Some(binary64::whole(cpu)),
                    binary64::whole(offset),
                ).0->0,
            )
        }),
{
    law_control_temp_in_degrees(gpu, cpu, offset);
    law_control_temp_in_degrees(gpu, cpu, more);
    law_control_temp_in_degrees(warmer, cpu, offset);
    let a = if gpu < cpu - offset { (cpu - offset) as nat } else { gpu };
    let b = if gpu < cpu - more { (cpu - more) as nat } else { gpu };
    let c = if warmer < cpu - offset { (cpu - offset) as nat } else { warmer };
    binary64::law_naturals_keep_their_order(b, a);
    binary64::law_naturals_keep_their_order(a, c);
}

/// A thousand thousandths make one.
pub proof fn law_thousandths(n: nat)
    requires
        1000 * n < TWO_53,
    ensures
        sensors::thousandth(1000 * n) == binary64::whole(n),
{
    fusion_laws::lemma_whole_quotient(1000 * n, 1000, n);
}

/// Whole samples keep their value, whatever they are reported as.
pub proof fn law_samples_keep_their_value(n: nat, v: Sample)
    requires
        0 < n < TWO_53,
    ensures
        v == Sample::U64(n as u64) ==> sensors::sample_number(v) == binary64::whole(n),
        n <= u32::MAX && v == Sample::U32(n as u32) ==> sensors::sample_number(v)
            == binary64::whole(n),
        v == Sample::I64(n as i64) ==> sensors::sample_number(v) == binary64::whole(n),
        v == Sample::I64((-(n as int)) as i64) ==> sensors::sample_number(v) == binary64::whole(
            n,
        ).negated(),
        v matches Sample::F64(f) ==> sensors::sample_number(v) == f@,
{
}

/// The readings of a tick, answer by answer: the power in watts and the headroom
/// in degrees, each only if the GPU can report it and did; the first of the memory
/// samples; the limit as it was last known; no temperature of a die.
pub proof fn law_readings_are_the_answers(
    caps: GpuCaps,
    reads: GpuReads,
    r: SignalReadings,
    watts: u32,
    threshold: nat,
    degrees: u32,
)
    requires
        sensors::readings_match(caps, reads, r),
    ensures
        r.gpu_temp_c is None && r.cpu_temp_c is None,
        r.gpu_power_limit_w == caps.power_limit_w,
        !caps.power || reads.power_mw is Err ==> r.gpu_power_w is None,
        caps.power && 1000 * watts <= u32::MAX && reads.power_mw == Ok::<u32, ReadError>(
            (1000 * watts) as u32,
        ) ==> (r.gpu_power_w matches Some(x) && x@ == binary64::whole(watts as nat)),
        !(caps.margin is GpuMaxMinusTemp) || reads.gpu_temp_c is Err ==> r.thermal_margin_c
            is None,
        reads.gpu_temp_c == Ok::<u32, ReadError>(degrees) ==> (
        caps.margin matches MarginSource::GpuMaxMinusTemp { threshold_c } ==> (threshold_c@
            == binary64::whole(threshold) && degrees <= threshold < TWO_53 ==> (
        r.thermal_margin_c matches Some(x) && x@ == binary64::whole(
            (threshold - degrees) as nat,
        )))),
        !caps.mem_temp || reads.mem_temp is Err ==> r.mem_temp_c is None,
        caps.mem_temp ==> (reads.mem_temp matches Ok(v) ==> {
            &&& v@.len() == 0 ==> r.mem_temp_c is None
            &&& v@.len() > 0 ==> (v@[0] matches Ok(s) ==> (r.mem_temp_c matches Some(x) && x@
                == sensors::sample_number(s)))
            &&& v@.len() > 0 && v@[0] is Err ==> r.mem_temp_c is None
        }),
        !caps.throttle || reads.throttle_bits is Err ==> !r.throttle.sw_thermal
            && !r.throttle.hw_thermal && !r.throttle.hw_power_brake && !r.throttle.sw_power_cap,
        caps.throttle ==> (reads.throttle_bits matches Ok(bits) ==> {
            &&& r.throttle.sw_power_cap <==> bits / 4 % 2 == 1
            &&& r.throttle.sw_thermal <==> bits / 32 % 2 == 1
            &&& r.throttle.hw_thermal <==> bits / 64 % 2 == 1
            &&& r.throttle.hw_power_brake <==> bits / 128 % 2 == 1
        }),
{
    if let Ok(bits) = reads.throttle_bits {
        sensors::law_bits_of_the_reasons(bits);
    }
    if 1000 * watts <= u32::MAX {
        law_thousandths(watts as nat);
    }
    if degrees <= threshold < TWO_53 {
        fusion_laws::lemma_whole_difference(threshold, degrees as nat);
    }
}

/// Only a real failure counts as an error, and no sample at all is one.
pub proof fn law_what_counts_as_a_failure(
    power: Result<u32, ReadError>,
    samples: Result<Vec<Result<Sample, ReadError>>, ReadError>,
)
    ensures
        sensors::failed(power) <==> power == Err::<u32, ReadError>(ReadError::Failed),
        samples matches Ok(v) ==> {
            &&& v@.len() == 0 ==> sensors::failed(sensors::first_sample(samples))
            &&& v@.len() > 0 ==> (sensors::failed(sensors::first_sample(samples)) <==> v@[0]
                == Err::<Sample, ReadError>(ReadError::Failed))
        },
        samples matches Err(e) ==> (sensors::failed(sensors::first_sample(samples)) <==> e
            == ReadError::Failed),
{
}

} // verus!
