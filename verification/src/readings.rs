//! Which of several sensor readings a display shows when a reading may be
//! missing: the first one present in an order that depends on the setting.
//!
//! Readings are generic, so the choice is proved once for whatever the
//! readings are.
use vstd::prelude::*;
use crate::schema::{CpuClockSource, CpuTemperatureSource};
use crate::text::str_equal;

verus! {

/// `a.or(b)`.
pub open spec fn or_else<T>(a: Option<T>, b: Option<T>) -> Option<T> {
    match a {
        Some(x) => Some(x),
        None => b,
    }
}

/// The CPU temperature shown for a source setting: the socket sensor first
/// (then the core sensor) when the socket is asked for; otherwise the core
/// sensor, then the socket sensor, then the temperature the system reports.
pub open spec fn cpu_temperature_for<T>(
    source: CpuTemperatureSource,
    core: Option<T>,
    socket: Option<T>,
    reported: Option<T>,
) -> Option<T> {
    match source {
        CpuTemperatureSource::Socket => or_else(socket, core),
        _ => or_else(or_else(core, socket), reported),
    }
}

/// Picks the CPU temperature to show (see `cpu_temperature_for`).
pub fn select_cpu_temperature<T: Copy>(
    source: CpuTemperatureSource,
    core: Option<T>,
    socket: Option<T>,
    reported: Option<T>,
) -> (shown: Option<T>)
    ensures
        shown == cpu_temperature_for(source, core, socket, reported),
{
    match source {
        CpuTemperatureSource::Socket => match socket {
            Some(t) => Some(t),
            None => core,
        },
        _ => match core {
            Some(t) => Some(t),
            None => match socket {
                Some(t) => Some(t),
                None => reported,
            },
        },
    }
}

/// The core and automatic settings show the same CPU temperature: the core
/// sensor when present, else the socket sensor, else the temperature the
/// system reports. The socket setting shows the socket sensor when present,
/// else the core sensor, and never the reported temperature.
pub proof fn law_cpu_temperature_fallbacks<T>(core: Option<T>, socket: Option<T>, reported: Option<T>)
    ensures
        cpu_temperature_for(CpuTemperatureSource::Core, core, socket, reported)
            == cpu_temperature_for(CpuTemperatureSource::Auto, core, socket, reported),
        core matches Some(c) ==> cpu_temperature_for(CpuTemperatureSource::Core, core, socket, reported) == Some(c),
        core is None ==> (socket matches Some(s) ==> cpu_temperature_for(CpuTemperatureSource::Core, core, socket, reported)
            == Some(s)),
        core is None && socket is None ==> cpu_temperature_for(CpuTemperatureSource::Core, core, socket, reported)
            == reported,
        socket matches Some(s) ==> cpu_temperature_for(CpuTemperatureSource::Socket, core, socket, reported) == Some(s),
        socket is None ==> cpu_temperature_for(CpuTemperatureSource::Socket, core, socket, reported) == core,
{
}

/// The CPU clock shown for a source setting: the averaged clock (then the
/// effective one) or the effective clock (then the averaged one), as the
/// setting asks, and then the clock the system reports.
pub open spec fn cpu_clock_for<T>(
    source: CpuClockSource,
    average: Option<T>,
    effective: Option<T>,
    reported: Option<T>,
) -> Option<T> {
    match source {
        CpuClockSource::Average => or_else(or_else(average, effective), reported),
        CpuClockSource::Effective => or_else(or_else(effective, average), reported),
    }
}

/// Each clock setting shows its own reading when present, the other
/// setting's reading next, and the clock the system reports only when
/// neither is present; the two settings differ only in which comes first.
pub proof fn law_cpu_clock_fallbacks<T>(average: Option<T>, effective: Option<T>, reported: Option<T>)
    ensures
        average matches Some(a) ==> cpu_clock_for(CpuClockSource::Average, average, effective, reported) == Some(a),
        effective matches Some(e) ==> cpu_clock_for(CpuClockSource::Effective, average, effective, reported) == Some(e),
        average is None ==> cpu_clock_for(CpuClockSource::Average, average, effective, reported)
            == cpu_clock_for(CpuClockSource::Effective, average, effective, reported),
        effective is None ==> cpu_clock_for(CpuClockSource::Effective, average, effective, reported)
            == cpu_clock_for(CpuClockSource::Average, average, effective, reported),
        average is None && effective is None ==> cpu_clock_for(CpuClockSource::Average, average, effective, reported)
            == reported && cpu_clock_for(CpuClockSource::Effective, average, effective, reported) == reported,
{
}

/// Picks the CPU clock to show (see `cpu_clock_for`).
pub fn select_cpu_clock<T: Copy>(
    source: CpuClockSource,
    average: Option<T>,
    effective: Option<T>,
    reported: Option<T>,
) -> (shown: Option<T>)
    ensures
        shown == cpu_clock_for(source, average, effective, reported),
{
    let (first, second) = match source {
        CpuClockSource::Average => (average, effective),
        CpuClockSource::Effective => (effective, average),
    };
    match first {
        Some(c) => Some(c),
        None => match second {
            Some(c) => Some(c),
            None => reported,
        },
    }
}

/// The disk whose usage is shown: among the disks with a positive size, the
/// largest; of several equally large, the last listed (as `max_by_key`
/// picks). `None` when no disk has a size.
pub open spec fn is_largest_disk(totals: Seq<u64>, index: int) -> bool {
    &&& 0 <= index < totals.len()
    &&& totals[index] > 0
    &&& forall|j: int| 0 <= j < totals.len() ==> #[trigger] totals[j] <= totals[index]
    &&& forall|j: int| index < j < totals.len() ==> #[trigger] totals[j] < totals[index]
}

/// Finds the disk whose usage is shown, from the disks' total sizes (see
/// `is_largest_disk`).
pub fn largest_disk(totals: &Vec<u64>) -> (index: Option<usize>)
    ensures
        match index {
            Some(i) => is_largest_disk(totals@, i as int),
            None => forall|j: int| 0 <= j < totals@.len() ==> #[trigger] totals@[j] == 0,
        },
{
    let mut best: Option<usize> = None;
    let mut i: usize = 0;
    while i < totals.len()
        invariant
            i <= totals@.len(),
            match best {
                Some(b) => {
                    &&& b < i
                    &&& totals@[b as int] > 0
                    &&& forall|j: int| 0 <= j < i ==> #[trigger] totals@[j] <= totals@[b as int]
                    &&& forall|j: int| b < j < i ==> #[trigger] totals@[j] < totals@[b as int]
                },
                None => forall|j: int| 0 <= j < i ==> #[trigger] totals@[j] == 0,
            },
        decreases totals@.len() - i,
    {
        let size = totals[i];
        if size > 0 {
            match best {
                Some(b) => {
                    if size >= totals[b] {
                        best = Some(i);
                    }
                },
                None => {
                    best = Some(i);
                },
            }
        }
        i = i + 1;
    }
    best
}

/// The temperature a command dial shows: a CPU dial follows its
/// "temperature" binding ("cpu_socket": socket then core; "cpu_core": core
/// then socket; otherwise the reported CPU temperature); any other dial
/// shows the GPU temperature.
pub open spec fn dial_temperature_for<T>(
    template: Seq<char>,
    binding: Option<Seq<char>>,
    core: Option<T>,
    socket: Option<T>,
    cpu: Option<T>,
    gpu: Option<T>,
) -> Option<T> {
    if template == "cpu_command_dial"@ {
        if binding == Some("cpu_socket"@) {
            or_else(socket, core)
        } else if binding == Some("cpu_core"@) {
            or_else(core, socket)
        } else {
            cpu
        }
    } else {
        gpu
    }
}

/// Picks the temperature a command dial shows (see `dial_temperature_for`).
pub fn dial_temperature<T: Copy>(
    template: &str,
    binding: Option<&str>,
    core: Option<T>,
    socket: Option<T>,
    cpu: Option<T>,
    gpu: Option<T>,
) -> (shown: Option<T>)
    ensures
        shown == dial_temperature_for(
            template@,
            match binding {
                Some(b) => Some(b@),
                None => None,
            },
            core,
            socket,
            cpu,
            gpu,
        ),
{
    if !str_equal(template, "cpu_command_dial") {
        return gpu;
    }
    match binding {
        Some(b) => {
            if str_equal(b, "cpu_socket") {
                match socket {
                    Some(t) => Some(t),
                    None => core,
                }
            } else if str_equal(b, "cpu_core") {
                match core {
                    Some(t) => Some(t),
                    None => socket,
                }
            } else {
                cpu
            }
        },
        None => cpu,
    }
}

/// Position of the first text equal to `b`.
pub open spec fn first_equal(ids: Seq<Seq<char>>, b: Seq<char>) -> Option<int>
    decreases ids.len(),
{
    if ids.len() == 0 {
        None
    } else if ids[0] == b {
        Some(0)
    } else {
        match first_equal(ids.drop_first(), b) {
            Some(i) => Some(i + 1),
            None => None,
        }
    }
}

proof fn lemma_first_equal(ids: Seq<Seq<char>>, b: Seq<char>, k: int)
    requires
        0 <= k <= ids.len(),
        forall|j: int| 0 <= j < k ==> ids[j] != b,
        k < ids.len() ==> ids[k] == b,
    ensures
        first_equal(ids, b) == (if k < ids.len() { Some(k) } else { None::<int> }),
    decreases k,
{
    if k > 0 {
        assert forall|j: int| 0 <= j < k - 1 implies ids.drop_first()[j] != b by {
            assert(ids.drop_first()[j] == ids[j + 1]);
        }
        lemma_first_equal(ids.drop_first(), b, k - 1);
    }
}

/// The fan sensor a dial's "fan" binding names: the first sensor whose id
/// equals the binding; none when the binding is absent or empty.
pub open spec fn bound_fan_for(binding: Option<Seq<char>>, ids: Seq<Seq<char>>) -> Option<int> {
    match binding {
        Some(b) => if b.len() > 0 {
            first_equal(ids, b)
        } else {
            None
        },
        None => None,
    }
}

/// A non-empty fan binding picks the first sensor whose id equals it, and no
/// sensor at all when none does; an absent or empty binding picks none.
pub proof fn law_fan_binding_picks_the_first_equal_id(binding: Option<Seq<char>>, ids: Seq<Seq<char>>)
    ensures
        bound_fan_for(binding, ids) matches Some(i) ==> {
            &&& binding == Some(ids[i])
            &&& 0 <= i < ids.len()
            &&& ids[i].len() > 0
            &&& forall|j: int| 0 <= j < i ==> #[trigger] ids[j] != ids[i]
        },
        bound_fan_for(binding, ids) is None ==> match binding {
            Some(b) => b.len() == 0 || forall|j: int| 0 <= j < ids.len() ==> #[trigger] ids[j] != b,
            None => true,
        },
{
    if let Some(b) = binding {
        lemma_first_equal_is_first(ids, b);
    }
}

proof fn lemma_first_equal_is_first(ids: Seq<Seq<char>>, b: Seq<char>)
    ensures
        first_equal(ids, b) matches Some(i) ==> 0 <= i < ids.len() && ids[i] == b && forall|j: int|
            0 <= j < i ==> #[trigger] ids[j] != b,
        first_equal(ids, b) is None ==> forall|j: int| 0 <= j < ids.len() ==> #[trigger] ids[j] != b,
    decreases ids.len(),
{
    if ids.len() > 0 {
        let rest = ids.drop_first();
        lemma_first_equal_is_first(rest, b);
        assert forall|j: int| 0 < j < ids.len() implies ids[j] == rest[j - 1] by {}
        if ids[0] != b {
            if let Some(i) = first_equal(rest, b) {
                assert forall|j: int| 0 <= j < i + 1 implies #[trigger] ids[j] != b by {
                    if j > 0 {
                        assert(ids[j] == rest[j - 1]);
                    }
                }
            } else {
                assert forall|j: int| 0 <= j < ids.len() implies #[trigger] ids[j] != b by {
                    if j > 0 {
                        assert(ids[j] == rest[j - 1]);
                    }
                }
            }
        }
    }
}

/// A CPU dial bound to "cpu_socket" shows the socket sensor (the core
/// sensor when the socket one is missing); bound to "cpu_core" it shows the
/// core sensor (then the socket one); with any other binding or none it
/// shows the reported CPU temperature. Every other dial shows the GPU
/// temperature, whatever its binding.
pub proof fn law_dial_temperature_follows_binding<T>(
    template: Seq<char>,
    binding: Option<Seq<char>>,
    core: Option<T>,
    socket: Option<T>,
    cpu: Option<T>,
    gpu: Option<T>,
)
    ensures
        template != "cpu_command_dial"@ ==> dial_temperature_for(template, binding, core, socket, cpu, gpu) == gpu,
        template == "cpu_command_dial"@ && binding == Some("cpu_socket"@) ==> dial_temperature_for(
            template,
            binding,
            core,
            socket,
            cpu,
            gpu,
        ) == (if socket is Some { socket } else { core }),
        template == "cpu_command_dial"@ && binding == Some("cpu_core"@) ==> dial_temperature_for(
            template,
            binding,
            core,
            socket,
            cpu,
            gpu,
        ) == (if core is Some { core } else { socket }),
        template == "cpu_command_dial"@ && binding != Some("cpu_socket"@) && binding != Some("cpu_core"@)
            ==> dial_temperature_for(template, binding, core, socket, cpu, gpu) == cpu,
{
    reveal_strlit("cpu_core");
    reveal_strlit("cpu_socket");
    assert("cpu_core"@.len() != "cpu_socket"@.len());
}

/// Finds the fan sensor a dial's binding names (see `bound_fan_for`).
pub fn bound_fan(binding: Option<&str>, ids: &Vec<String>) -> (index: Option<usize>)
    ensures
        match index {
            Some(i) => bound_fan_for(
                match binding {
                    Some(b) => Some(b@),
                    None => None,
                },
                crate::sorting::texts(ids@),
            ) == Some(i as int),
            None => bound_fan_for(
                match binding {
                    Some(b) => Some(b@),
                    None => None,
                },
                crate::sorting::texts(ids@),
            ) is None,
        },
{
    let b = match binding {
        Some(b) => b,
        None => return None,
    };
    if b.unicode_len() == 0 {
        return None;
    }
    let ghost names = crate::sorting::texts(ids@);
    let mut i: usize = 0;
    while i < ids.len()
        invariant
            names == crate::sorting::texts(ids@),
            b@.len() > 0,
            binding == Some(b),
            i <= ids.len(),
            forall|j: int| 0 <= j < i ==> names[j] != b@,
        decreases ids.len() - i,
    {
        assert(names[i as int] == ids@[i as int]@);
        if str_equal(ids[i].as_str(), b) {
            proof {
                assert(names[i as int] == ids@[i as int]@);
                lemma_first_equal(names, b@, i as int);
            }
            return Some(i);
        }
        i += 1;
    }
    proof {
        lemma_first_equal(names, b@, i as int);
    }
    None
}

} // verus!
