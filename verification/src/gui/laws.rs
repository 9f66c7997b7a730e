//! What holds of what the windows show and decide.
use vstd::prelude::*;

use crate::app_config::laws::decimal_is_read_back;
use crate::app_config::AppConfig;
use crate::device::plan::BurnEvent;
use crate::gui::devices::{
    auto_burn_after, first_ready, gate_for, ready_from, selection, DeviceList, Gate,
};
use crate::gui::labels::{
    context_text, device_ref, device_row, language_code, language_of, not_ready_text, place_text,
    readiness_text, recovery_text, status_text, transport_of, transport_value, Language,
    NotReadyContext, TransportKind,
};
use crate::gui::log::{burn_event_seen, latest, stamped, BurnNote, BurnProgress};
use crate::gui::official::{fields_of, OfficialCommand};
use crate::gui::parts::{chosen, is_target, key_of, names, ticked, usual_keys, MetaSummary};
use crate::gui::serial::{options_of, port_named, port_selection, selected_port, SerialList};
use crate::number::{dec, digits_value, hex_wide, zero_padded, zeros_keep_the_value};
use crate::text::{lowered, mentions};
use crate::uart::ports::SerialPortInfo;
use crate::usb::ioreg::device_views;
use crate::usb::search::DeviceInfo;

verus! {

// ---------------------------------------------------------------------------------------
// Forms
// ---------------------------------------------------------------------------------------
/// Which commands each field of a form is shown for.
pub proof fn fields_are_shown_for_these(c: OfficialCommand)
    ensures
        ({
            let f = fields_of(c);
            &&& f.image <==> c is ImageInfo || c is ExtractImage || c is UpgradeImage || c
                is ListMedia || c is FlashErase || c is RamBoot
            &&& f.input <==> c is WriteMemory
            &&& f.output <==> c is DumpPartition || c is ReadMemory || c is JtagUnlockData
            &&& f.media <==> c is ListPartitions || c is DumpPartition || c is FlashErase
            &&& f.partition <==> c is DumpPartition
            &&& f.shell <==> c is ShellCommand
            &&& f.fwc_list <==> c is UpgradeImage
            &&& f.address <==> c is WriteMemory || c is ReadMemory || c is WriteLong || c
                is ReadLong || c is MemTest || c is Exec || c is HexDump || c is Fill || c is Clear
            &&& f.length <==> c is WriteMemory || c is ReadMemory || c is MemTest || c is HexDump
                || c is Fill || c is Clear
            &&& f.value <==> c is WriteLong || c is Fill
            &&& f.round <==> c is MemTest
            &&& f.skip <==> c is WriteMemory
            &&& f.ram_boot <==> c is RamBoot
            &&& f.raw_args <==> c is JtagUnlock || c is Raw
        }),
{
}

// ---------------------------------------------------------------------------------------
// Languages and texts
// ---------------------------------------------------------------------------------------
/// English and the serial line have to be asked for, in letters of any case; the settings name
/// them as they are named here.
pub proof fn settings_name_language_and_way(code: Seq<char>)
    ensures
        language_of(code) == Language::En <==> lowered(code) == seq!['e', 'n'],
        transport_of(code) == TransportKind::Uart <==> lowered(code) == seq!['u', 'a', 'r', 't'],
        language_code(Language::ZhCn) == "zh_cn"@,
        language_code(Language::En) == "en"@,
        transport_value(TransportKind::Usb) == "usb"@,
        transport_value(TransportKind::Uart) == "uart"@,
{
    reveal_strlit("en");
    reveal_strlit("uart");
    assert(lowered("en"@) =~= seq!['e', 'n']);
    assert(lowered("uart"@) =~= seq!['u', 'a', 'r', 't']);
}

/// The words for a device and for what was held up by it, in both languages.
pub proof fn words_are_in_both_languages()
    ensures
        readiness_text(Language::En, true) == "ready"@,
        readiness_text(Language::En, false) == "not-ready"@,
        readiness_text(Language::ZhCn, true) == "就绪"@,
        readiness_text(Language::ZhCn, false) == "未就绪"@,
        context_text(Language::En, NotReadyContext::Scan) == "Scan found a not-ready device"@,
        context_text(Language::En, NotReadyContext::BurnCancelled) == "Burn cancelled"@,
        context_text(Language::En, NotReadyContext::DeviceInfoCancelled)
            == "Device info cancelled"@,
        context_text(Language::ZhCn, NotReadyContext::Scan) == "扫描发现未就绪设备"@,
        context_text(Language::ZhCn, NotReadyContext::BurnCancelled) == "烧录已取消"@,
        context_text(Language::ZhCn, NotReadyContext::DeviceInfoCancelled)
            == "读取设备信息已取消"@,
        recovery_text(Language::En)
            == "Recovery hint: close other artinchip-flash/AiBurn instances, unplug or power-cycle the board, enter upgrade mode again, and test with a direct Mac connection before using hubs/docks."@,
        recovery_text(Language::ZhCn)
            == "处理建议：关闭其它 artinchip-flash/AiBurn 实例，拔插或断电重启板子，重新进入升级模式；优先直连 Mac，先避开 hub/dock。"@,
{
}

/// How devices are named: by the ports that lead to them, or by their address where those are not
/// known; in the log with their numbers, in the list with whether they are ready, and there with
/// their speed only where that is asked for.
pub proof fn devices_are_named_so(lang: Language, d: DeviceInfo<Seq<char>>)
    ensures
        d.port_path.len() > 0 ==> place_text(d) == d.port_path,
        d.port_path.len() == 0 ==> place_text(d) == dec(d.address as nat),
        device_ref(d) == "bus="@ + dec(d.bus_number as nat) + " path="@ + place_text(d)
            + " address="@ + dec(d.address as nat) + " vid=0x"@ + hex_wide(d.vendor_id as nat, 4)
            + " pid=0x"@ + hex_wide(d.product_id as nat, 4) + " speed="@ + d.speed,
        ({
            let front = dec(d.bus_number as nat) + ":"@ + place_text(d) + "  "@ + hex_wide(
                d.vendor_id as nat,
                4,
            ) + ":"@ + hex_wide(d.product_id as nat, 4) + "  "@;
            &&& device_row(lang, d, false) == front + readiness_text(lang, d.ready)
            &&& device_row(lang, d, true) == front + d.speed + "  "@ + readiness_text(lang, d.ready)
        }),
{
    let front = dec(d.bus_number as nat) + ":"@ + place_text(d) + "  "@ + hex_wide(
        d.vendor_id as nat,
        4,
    ) + ":"@ + hex_wide(d.product_id as nat, 4) + "  "@;
    assert(device_row(lang, d, false) =~= front + readiness_text(lang, d.ready));
    assert(device_row(lang, d, true) =~= front + d.speed + "  "@ + readiness_text(lang, d.ready));
}

/// What is said of a device that is not ready: what was held up, which device it is, that it is not
/// ready, and in brackets why, or that again where no reason is known.
pub proof fn unready_devices_are_told(
    lang: Language,
    d: DeviceInfo<Seq<char>>,
    context: NotReadyContext,
    status: Seq<char>,
)
    ensures
        ({
            let front = context_text(lang, context) + ": "@ + device_ref(d) + " "@
                + readiness_text(lang, false) + " ("@;
            &&& d.status == Some(status) ==> not_ready_text(lang, d, context) == front
                + status_text(lang, status) + ")"@
            &&& d.status is None ==> not_ready_text(lang, d, context) == front + readiness_text(
                lang,
                false,
            ) + ")"@
        }),
        status_text(Language::En, status) == status,
        ({
            let apple = mentions(status, "kUSBCurrentConfiguration"@) || mentions(
                status,
                "IOUSBHostInterface"@,
            );
            &&& apple ==> status_text(Language::ZhCn, status)
                == "macOS 已枚举 VID/PID，但还没有为设备创建 USB 配置或接口；原始状态："@ + status
            &&& !apple ==> status_text(Language::ZhCn, status) == status
        }),
{
}

// ---------------------------------------------------------------------------------------
// Devices and ports
// ---------------------------------------------------------------------------------------
/// The device that is selected is the first that is ready, or else the first; and as many are
/// counted as are ready.
pub proof fn first_ready_device_is_selected(devices: Seq<DeviceInfo<Seq<char>>>, k: int)
    requires
        0 <= k <= devices.len(),
    ensures
        match first_ready(devices, k) {
            Some(i) => k <= i < devices.len() && devices[i].ready && forall|j: int|
                k <= j < i ==> !(#[trigger] devices[j]).ready,
            None => forall|j: int| k <= j < devices.len() ==> !(#[trigger] devices[j]).ready,
        },
        ready_from(devices, devices.len() as int) == 0,
        k < devices.len() && devices[k].ready ==> ready_from(devices, k) == ready_from(
            devices,
            k + 1,
        ) + 1,
        k < devices.len() && !devices[k].ready ==> ready_from(devices, k) == ready_from(
            devices,
            k + 1,
        ),
        devices.len() == 0 ==> selection(devices) is None,
        devices.len() > 0 && first_ready(devices, 0) is Some ==> selection(devices) == first_ready(
            devices,
            0,
        ),
        devices.len() > 0 && first_ready(devices, 0) is None ==> selection(devices) == Some(0int),
    decreases devices.len() - k,
{
    if k < devices.len() {
        first_ready_device_is_selected(devices, k + 1);
    }
}

/// A burn starts by itself once, where it is wanted, there is an image and a device is ready; that
/// it did not is said where only the device is missing.
pub proof fn burns_start_by_themselves_once(
    ready: int,
    wanted: bool,
    has_image: bool,
    started: bool,
)
    requires
        0 <= ready,
    ensures
        auto_burn_after(ready, wanted, has_image, started) is Start <==> wanted && has_image
            && !started && ready > 0,
        auto_burn_after(ready, wanted, has_image, started) is Skipped <==> wanted && has_image
            && ready == 0,
{
}

/// When work with a device may start, and with which: never while something runs, no burn without
/// an image, over the serial line at once; over USB with the selected device if it is ready, and
/// where none is selected unless there are devices and none of them is.
pub proof fn work_starts_where_it_may(
    list: DeviceList,
    busy: bool,
    transport: TransportKind,
    needs_image: bool,
    has_image: bool,
    i: usize,
)
    ensures
        ({
            let g = gate_for(list, busy, transport, needs_image, has_image);
            let free = !busy && (needs_image ==> has_image);
            let usb = free && transport == TransportKind::Usb;
            let chosen = list.selected == Some(i) && i < list.devices@.len();
            let none = list.selected is None || (list.selected == Some(i) && i
                >= list.devices@.len());
            let any = exists|k: int| 0 <= k < list.devices@.len() && (#[trigger] list.devices@[k]).ready;
            &&& busy <==> g is Busy
            &&& !busy && needs_image && !has_image <==> g is NoImage
            &&& free && transport == TransportKind::Uart <==> g is Serial
            &&& usb && chosen && list.devices@[i as int].ready ==> g == Gate::Usb(
                Some((list.devices@[i as int].bus_number, list.devices@[i as int].address)),
            )
            &&& usb && chosen && !list.devices@[i as int].ready ==> g == Gate::NotReady(i)
            &&& usb && none && (any || list.devices@.len() == 0) ==> g == Gate::Usb(None)
            &&& usb && none && !any && list.devices@.len() > 0 ==> g is NoneReady
        }),
{
    let all = device_views(list.devices@);
    first_ready_device_is_selected(all, 0);
    assert forall|k: int| 0 <= k < all.len() implies (#[trigger] all[k]).ready
        == list.devices@[k].ready by {}
    if exists|k: int| 0 <= k < list.devices@.len() && (#[trigger] list.devices@[k]).ready {
        let k = choose|k: int| 0 <= k < list.devices@.len() && (#[trigger] list.devices@[k]).ready;
        assert(all[k].ready);
    }
    match first_ready(all, 0) {
        Some(k) => {
            assert(list.devices@[k].ready);
        },
        None => {},
    }
}

/// The port that is selected is the first with the configured name, or else the first.
pub proof fn configured_port_is_selected(
    ports: Seq<SerialPortInfo>,
    name: Seq<char>,
    k: int,
)
    requires
        0 <= k,
    ensures
        match port_named(ports, name, k) {
            Some(i) => k <= i < ports.len() && ports[i].port_name@ == name && forall|j: int|
                k <= j < i ==> (#[trigger] ports[j]).port_name@ != name,
            None => forall|j: int| k <= j < ports.len() ==> (#[trigger] ports[j]).port_name@ != name,
        },
        ports.len() == 0 ==> port_selection(ports, name) is None,
        ports.len() > 0 && name.len() == 0 ==> port_selection(ports, name) == Some(0int),
        ports.len() > 0 && name.len() > 0 && port_named(ports, name, 0) is Some ==> port_selection(
            ports,
            name,
        ) == port_named(ports, name, 0),
        ports.len() > 0 && port_named(ports, name, 0) is None ==> port_selection(ports, name)
            == Some(0int),
    decreases ports.len() - k,
{
    if k < ports.len() {
        configured_port_is_selected(ports, name, k + 1);
    }
}

/// The name of the selected port is that of the port; where none is selected it is the configured
/// one.
pub proof fn selected_port_is_named(list: SerialList, configured: Seq<char>, i: usize)
    ensures
        list.selected is None ==> selected_port(list, configured) == configured,
        list.selected == Some(i) && i < list.ports@.len() ==> selected_port(list, configured)
            == list.ports@[i as int].port_name@,
        list.selected == Some(i) && i >= list.ports@.len() ==> selected_port(
            list,
            configured,
        ).len() == 0,
{
}

/// The options for a serial line follow the settings: no slower than a line can be, a speed to
/// negotiate only where it is higher, and the rest as usual.
pub proof fn line_follows_the_settings(c: AppConfig)
    ensures
        ({
            let o = options_of(c);
            &&& c.serial_baud >= 1200 ==> o.baudrate == c.serial_baud
            &&& c.serial_baud < 1200 ==> o.baudrate == 1200
            &&& c.serial_speed > c.serial_baud ==> o.max_baudrate == Some(c.serial_speed)
            &&& c.serial_speed <= c.serial_baud ==> o.max_baudrate is None
            &&& o.auto_enter == c.serial_auto_enter
            &&& o.connect_timeout == 6000 && o.ack_timeout == 2000 && o.data_timeout == 30_000
                && o.enter_timeout == 20_000
        }),
{
}

// ---------------------------------------------------------------------------------------
// The log and the progress
// ---------------------------------------------------------------------------------------
/// A line of the log begins with the time since the start, minutes and seconds in two digits at
/// least, and goes on with what was logged.
pub proof fn lines_are_stamped(secs: u64, line: Seq<char>)
    ensures
        ({
            let m = zero_padded(dec((secs / 60) as nat), 2);
            let s = zero_padded(dec((secs % 60) as nat), 2);
            &&& stamped(secs, line) == seq!['['] + m + seq![':'] + s + seq![']', ' '] + line
            &&& digits_value(m, 10) == Some((secs / 60) as nat) && m.len() >= 2
            &&& digits_value(s, 10) == Some((secs % 60) as nat) && s.len() >= 2
        }),
{
    reveal_strlit("[");
    reveal_strlit(":");
    reveal_strlit("] ");
    assert("["@ =~= seq!['[']);
    assert(":"@ =~= seq![':']);
    assert("] "@ =~= seq![']', ' ']);
    lemma_two_digits((secs / 60) as nat);
    lemma_two_digits((secs % 60) as nat);
}

proof fn lemma_two_digits(n: nat)
    ensures
        digits_value(zero_padded(dec(n), 2), 10) == Some(n),
        zero_padded(dec(n), 2).len() >= 2,
{
    decimal_is_read_back(n);
    let s = dec(n);
    if s.len() < 2 {
        zeros_keep_the_value(s, (2 - s.len()) as nat);
    }
}

/// The log keeps the last fifteen hundred lines, and all of them while there are no more.
pub proof fn last_lines_are_kept(all: Seq<Seq<char>>)
    ensures
        all.len() <= 1500 ==> latest(all) == all,
        all.len() > 1500 ==> latest(all).len() == 1500 && forall|i: int|
            0 <= i < 1500 ==> #[trigger] latest(all)[i] == all[all.len() - 1500 + i],
{
}

/// What a report of a burn changes in what is shown, and what is said of it.
pub proof fn reports_are_shown(
    p: BurnProgress<Seq<char>>,
    text: Seq<char>,
    partition: Seq<char>,
    m: usize,
    n: usize,
)
    ensures
        burn_event_seen(p, BurnEvent::Log(text)) == (p, BurnNote::Text(text)),
        burn_event_seen(p, BurnEvent::Stage(text)) == (p, BurnNote::Text(text)),
        burn_event_seen(p, BurnEvent::ComponentStarted { name: text, partition, size: n }) == (
            BurnProgress {
                overall: p.overall,
                component: (0usize, 0usize),
                active_component: text,
            },
            BurnNote::Started { name: text, partition, size: n },
        ),
        burn_event_seen(p, BurnEvent::ComponentProgress { name: text, sent: m, total: n }) == (
            BurnProgress { overall: p.overall, component: (m, n), active_component: text },
            BurnNote::<Seq<char>>::Nothing,
        ),
        burn_event_seen(p, BurnEvent::OverallProgress { sent: m, total: n }) == (
            BurnProgress {
                overall: (m, n),
                component: p.component,
                active_component: p.active_component,
            },
            BurnNote::<Seq<char>>::Nothing,
        ),
        burn_event_seen(p, BurnEvent::ComponentFinished { name: text }) == (
            p,
            BurnNote::ComponentDone(text),
        ),
        burn_event_seen(p, BurnEvent::Finished).1 == BurnNote::<Seq<char>>::AllDone,
        burn_event_seen(p, BurnEvent::Finished).0.component == p.component,
        burn_event_seen(p, BurnEvent::Finished).0.active_component == p.active_component,
        burn_event_seen(p, BurnEvent::Finished).0.overall == (1usize, 1usize),
{
}

// ---------------------------------------------------------------------------------------
// Parts
// ---------------------------------------------------------------------------------------
/// A target is a component whose name begins so, and it is chosen by what follows in its name; any
/// other component is known by its whole name.
pub proof fn targets_are_known_by_name(meta: MetaSummary, rest: Seq<char>)
    ensures
        meta.name@ == "image.target."@ + rest ==> is_target(meta) && key_of(meta) == rest,
        is_target(meta) ==> meta.name@ == "image.target."@ + key_of(meta),
        !is_target(meta) ==> key_of(meta) == meta.name@,
{
    crate::text::fronts_are_taken_off("image.target."@, rest, meta.name@);
}

/// A component is ticked if and only if it is no target or the choice holds its key, its partition
/// or its name.
pub proof fn ticks_follow_the_choice(meta: MetaSummary, parts: Seq<Seq<char>>)
    ensures
        ticked(meta, parts) <==> !is_target(meta) || parts.contains(key_of(meta))
            || parts.contains(meta.partition@) || parts.contains(meta.name@),
        parts.contains(key_of(meta)) ==> chosen(parts, meta, true) == parts,
        !parts.contains(key_of(meta)) ==> chosen(parts, meta, true) == parts.push(key_of(meta)),
{
    if is_target(meta) {
        if ticked(meta, parts) {
            let i = choose|i: int| 0 <= i < parts.len() && names(#[trigger] parts[i], meta);
            assert(parts.contains(parts[i]));
        }
        if parts.contains(key_of(meta)) {
            let i = choose|i: int| 0 <= i < parts.len() && parts[i] == key_of(meta);
            assert(names(parts[i], meta));
        }
        if parts.contains(meta.partition@) {
            let i = choose|i: int| 0 <= i < parts.len() && parts[i] == meta.partition@;
            assert(names(parts[i], meta));
        }
        if parts.contains(meta.name@) {
            let i = choose|i: int| 0 <= i < parts.len() && parts[i] == meta.name@;
            assert(names(parts[i], meta));
        }
    }
}

/// The usual choice is the targets among the components that are the loader, the environment or
/// the system, in the order of the image.
pub proof fn usual_targets_are_chosen(metas: Seq<MetaSummary>, n: nat)
    requires
        n < metas.len(),
    ensures
        ({
            let meta = metas[n as int];
            let usual = is_target(meta) && (key_of(meta) == "spl"@ || key_of(meta) == "env"@
                || key_of(meta) == "os"@);
            &&& usual_keys(metas, 0) == Seq::<Seq<char>>::empty()
            &&& usual ==> usual_keys(metas, n + 1) == usual_keys(metas, n).push(key_of(meta))
            &&& !usual ==> usual_keys(metas, n + 1) == usual_keys(metas, n)
        }),
{
}

/// Taking a tick away takes the names that are about the component out of the choice, and leaves
/// the others in their order.
pub proof fn other_choices_stay(parts: Seq<Seq<char>>, part: Seq<char>, meta: MetaSummary)
    ensures
        chosen(Seq::empty(), meta, false) == Seq::<Seq<char>>::empty(),
        ({
            let about = part == key_of(meta) || part == meta.partition@ || part == meta.name@;
            &&& about ==> chosen(parts.push(part), meta, false) == chosen(parts, meta, false)
            &&& !about ==> chosen(parts.push(part), meta, false) == chosen(
                parts,
                meta,
                false,
            ).push(part)
        }),
{
    assert(parts.push(part).drop_last() =~= parts);
}

} // verus!
