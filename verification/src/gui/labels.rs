//! Texts in the user's language.
use vstd::prelude::*;

use crate::number::{dec, dec_text, hex_wide, push_dec, push_hex};
use crate::text::{lowered, mentions, same_ignoring_case, str_contains};
use crate::usb::search::DeviceInfo;

verus! {

/// The languages of the windows.
#[derive(Clone, Copy, Debug, Eq, PartialEq, Structural)]
pub enum Language {
    ZhCn,
    En,
}

/// The language that a setting names; Chinese where it names none.
pub open spec fn language_of(code: Seq<char>) -> Language {
    if lowered(code) == lowered("en"@) {
        Language::En
    } else {
        Language::ZhCn
    }
}

/// The setting that names a language.
pub open spec fn language_code(lang: Language) -> Seq<char> {
    match lang {
        Language::ZhCn => "zh_cn"@,
        Language::En => "en"@,
    }
}

impl Language {
    /// The language that a setting names; Chinese where it names none.
    pub fn from_code(code: &str) -> (lang: Self)
        ensures
            lang == language_of(code@),
    {
        if same_ignoring_case(code, "en") {
            Language::En
        } else {
            Language::ZhCn
        }
    }

    /// The setting that names a language.
    pub fn code(self) -> (s: &'static str)
        ensures
            s@ == language_code(self),
    {
        match self {
            Language::ZhCn => "zh_cn",
            Language::En => "en",
        }
    }
}

/// A language that was set is the language that is found.
pub proof fn language_is_kept(lang: Language)
    ensures
        language_of(language_code(lang)) == lang,
{
    reveal_strlit("zh_cn");
    reveal_strlit("en");
    assert(lowered("zh_cn"@).len() == 5);
    assert(lowered("en"@).len() == 2);
}

/// How the device is reached.
#[derive(Clone, Copy, Debug, Eq, PartialEq, Structural)]
pub enum TransportKind {
    Usb,
    Uart,
}

/// The way that a setting names; USB where it names none.
pub open spec fn transport_of(value: Seq<char>) -> TransportKind {
    if lowered(value) == lowered("uart"@) {
        TransportKind::Uart
    } else {
        TransportKind::Usb
    }
}

/// The setting that names a way.
pub open spec fn transport_value(kind: TransportKind) -> Seq<char> {
    match kind {
        TransportKind::Usb => "usb"@,
        TransportKind::Uart => "uart"@,
    }
}

impl TransportKind {
    /// The way that a setting names; USB where it names none.
    pub fn from_config(value: &str) -> (kind: Self)
        ensures
            kind == transport_of(value@),
    {
        if same_ignoring_case(value, "uart") {
            TransportKind::Uart
        } else {
            TransportKind::Usb
        }
    }

    /// The setting that names a way.
    pub fn config_value(self) -> (s: &'static str)
        ensures
            s@ == transport_value(self),
    {
        match self {
            TransportKind::Usb => "usb",
            TransportKind::Uart => "uart",
        }
    }
}

/// A way that was set is the way that is found.
pub proof fn transport_is_kept(kind: TransportKind)
    ensures
        transport_of(transport_value(kind)) == kind,
{
    reveal_strlit("usb");
    reveal_strlit("uart");
    assert(lowered("usb"@).len() == 3);
    assert(lowered("uart"@).len() == 4);
}

/// Why a device that is not ready is spoken of.
#[derive(Clone, Copy, Debug, Eq, PartialEq, Structural)]
pub enum NotReadyContext {
    Scan,
    BurnCancelled,
    DeviceInfoCancelled,
}

/// The word for whether a device is ready.
pub open spec fn readiness_text(lang: Language, ready: bool) -> Seq<char> {
    match (lang, ready) {
        (Language::ZhCn, true) => "就绪"@,
        (Language::ZhCn, false) => "未就绪"@,
        (Language::En, true) => "ready"@,
        (Language::En, false) => "not-ready"@,
    }
}

/// Whether a device is ready, in words.
pub fn readiness_label(lang: Language, ready: bool) -> (s: &'static str)
    ensures
        s@ == readiness_text(lang, ready),
{
    match (lang, ready) {
        (Language::ZhCn, true) => "就绪",
        (Language::ZhCn, false) => "未就绪",
        (Language::En, true) => "ready",
        (Language::En, false) => "not-ready",
    }
}

/// What is said after a scan for devices.
pub fn scan_summary(lang: Language, detected: usize, ready: usize, not_ready: usize) -> (s: String)
    ensures
        s@ == (match lang {
            Language::ZhCn => "扫描完成：检测到 "@ + dec(detected as nat)
                + " 个 ArtInChip 设备，"@ + dec(ready as nat) + " 个就绪，"@ + dec(
                not_ready as nat,
            ) + " 个未就绪"@,
            Language::En => "Scan complete: detected "@ + dec(detected as nat)
                + " ArtInChip device(s), "@ + dec(ready as nat) + " ready, "@ + dec(
                not_ready as nat,
            ) + " not ready"@,
        }),
{
    let (a, b, c, d) = match lang {
        Language::ZhCn => (
            "扫描完成：检测到 ",
            " 个 ArtInChip 设备，",
            " 个就绪，",
            " 个未就绪",
        ),
        Language::En => (
            "Scan complete: detected ",
            " ArtInChip device(s), ",
            " ready, ",
            " not ready",
        ),
    };
    let mut s = a.to_string();
    push_dec(&mut s, detected as u64);
    s.append(b);
    push_dec(&mut s, ready as u64);
    s.append(c);
    push_dec(&mut s, not_ready as u64);
    s.append(d);
    s
}

/// What is said after a scan for serial ports.
pub fn serial_scan_summary(lang: Language, ports: usize) -> (s: String)
    ensures
        s@ == (match lang {
            Language::ZhCn => "扫描完成：发现 "@ + dec(ports as nat) + " 个串口"@,
            Language::En => "Scan complete: "@ + dec(ports as nat) + " serial port(s)"@,
        }),
{
    let (a, b) = match lang {
        Language::ZhCn => ("扫描完成：发现 ", " 个串口"),
        Language::En => ("Scan complete: ", " serial port(s)"),
    };
    let mut s = a.to_string();
    push_dec(&mut s, ports as u64);
    s.append(b);
    s
}

/// What is said where a burn does not start by itself.
pub fn auto_burn_skipped(lang: Language) -> (s: &'static str)
    ensures
        s@ == (match lang {
            Language::ZhCn => "已跳过自动烧录：当前没有就绪的 ArtInChip 设备"@,
            Language::En => "Auto burn skipped: no ready ArtInChip device"@,
        }),
{
    match lang {
        Language::ZhCn => "已跳过自动烧录：当前没有就绪的 ArtInChip 设备",
        Language::En => "Auto burn skipped: no ready ArtInChip device",
    }
}

/// What is said of why a device that is not ready is spoken of.
pub open spec fn context_text(lang: Language, context: NotReadyContext) -> Seq<char> {
    match (lang, context) {
        (Language::ZhCn, NotReadyContext::Scan) => "扫描发现未就绪设备"@,
        (Language::ZhCn, NotReadyContext::BurnCancelled) => "烧录已取消"@,
        (Language::ZhCn, NotReadyContext::DeviceInfoCancelled) => "读取设备信息已取消"@,
        (Language::En, NotReadyContext::Scan) => "Scan found a not-ready device"@,
        (Language::En, NotReadyContext::BurnCancelled) => "Burn cancelled"@,
        (Language::En, NotReadyContext::DeviceInfoCancelled) => "Device info cancelled"@,
    }
}

/// What was held up by a device that is not ready.
pub fn not_ready_context_label(lang: Language, context: NotReadyContext) -> (s: &'static str)
    ensures
        s@ == context_text(lang, context),
{
    match (lang, context) {
        (Language::ZhCn, NotReadyContext::Scan) => "扫描发现未就绪设备",
        (Language::ZhCn, NotReadyContext::BurnCancelled) => "烧录已取消",
        (Language::ZhCn, NotReadyContext::DeviceInfoCancelled) => "读取设备信息已取消",
        (Language::En, NotReadyContext::Scan) => "Scan found a not-ready device",
        (Language::En, NotReadyContext::BurnCancelled) => "Burn cancelled",
        (Language::En, NotReadyContext::DeviceInfoCancelled) => "Device info cancelled",
    }
}

/// What is said where a burn finds no device that is ready.
pub fn burn_cancelled_no_ready(lang: Language) -> (s: &'static str)
    ensures
        s@ == (match lang {
            Language::ZhCn => "烧录已取消：检测到 ArtInChip 设备，但当前没有设备就绪"@,
            Language::En => "Burn cancelled: detected ArtInChip devices are not ready"@,
        }),
{
    match lang {
        Language::ZhCn => "烧录已取消：检测到 ArtInChip 设备，但当前没有设备就绪",
        Language::En => "Burn cancelled: detected ArtInChip devices are not ready",
    }
}

/// What is said where a query finds no device that is ready.
pub fn device_info_cancelled_no_ready(lang: Language) -> (s: &'static str)
    ensures
        s@ == (match lang {
            Language::ZhCn => "读取设备信息已取消：检测到 ArtInChip 设备，但当前没有设备就绪"@,
            Language::En => "Device info cancelled: detected ArtInChip devices are not ready"@,
        }),
{
    match lang {
        Language::ZhCn => "读取设备信息已取消：检测到 ArtInChip 设备，但当前没有设备就绪",
        Language::En => "Device info cancelled: detected ArtInChip devices are not ready",
    }
}

/// What is advised where macOS keeps a device from being used.
pub open spec fn recovery_text(lang: Language) -> Seq<char> {
    match lang {
        Language::ZhCn =>
            "处理建议：关闭其它 artinchip-flash/AiBurn 实例，拔插或断电重启板子，重新进入升级模式；优先直连 Mac，先避开 hub/dock。"@,
        Language::En =>
            "Recovery hint: close other artinchip-flash/AiBurn instances, unplug or power-cycle the board, enter upgrade mode again, and test with a direct Mac connection before using hubs/docks."@,
    }
}

/// What helps with a device that macOS does not hand over.
pub fn macos_recovery_hint(lang: Language) -> (s: &'static str)
    ensures
        s@ == recovery_text(lang),
{
    match lang {
        Language::ZhCn =>
            "处理建议：关闭其它 artinchip-flash/AiBurn 实例，拔插或断电重启板子，重新进入升级模式；优先直连 Mac，先避开 hub/dock。",
        Language::En =>
            "Recovery hint: close other artinchip-flash/AiBurn instances, unplug or power-cycle the board, enter upgrade mode again, and test with a direct Mac connection before using hubs/docks.",
    }
}

/// The ports that lead to a device, or its address where they are not known.
pub open spec fn place_text(device: DeviceInfo<Seq<char>>) -> Seq<char> {
    if device.port_path.len() == 0 {
        dec(device.address as nat)
    } else {
        device.port_path
    }
}

/// Where a device is plugged in, or its address where that is not known.
pub fn port_path_or_address(device: &DeviceInfo) -> (s: String)
    ensures
        s@ == place_text(device@),
{
    if device.port_path.as_str().unicode_len() == 0 {
        dec_text(device.address as u64)
    } else {
        device.port_path.clone()
    }
}

/// A device as the log names it.
pub open spec fn device_ref(device: DeviceInfo<Seq<char>>) -> Seq<char> {
    "bus="@ + dec(device.bus_number as nat) + " path="@ + place_text(device) + " address="@ + dec(
        device.address as nat,
    ) + " vid=0x"@ + hex_wide(device.vendor_id as nat, 4) + " pid=0x"@ + hex_wide(
        device.product_id as nat,
        4,
    ) + " speed="@ + device.speed
}

/// A short reference to a device.
pub fn format_device_ref(device: &DeviceInfo) -> (s: String)
    ensures
        s@ == device_ref(device@),
{
    let mut s = "bus=".to_string();
    push_dec(&mut s, device.bus_number as u64);
    s.append(" path=");
    s.append(port_path_or_address(device).as_str());
    s.append(" address=");
    push_dec(&mut s, device.address as u64);
    s.append(" vid=0x");
    push_hex(&mut s, device.vendor_id as u64, 4);
    s.append(" pid=0x");
    push_hex(&mut s, device.product_id as u64, 4);
    s.append(" speed=");
    s.append(device.speed.as_str());
    s
}

/// A device as the list of devices names it. The list itself also tells the speed.
pub open spec fn device_row(lang: Language, device: DeviceInfo<Seq<char>>, with_speed: bool) -> Seq<
    char,
> {
    dec(device.bus_number as nat) + ":"@ + place_text(device) + "  "@ + hex_wide(
        device.vendor_id as nat,
        4,
    ) + ":"@ + hex_wide(device.product_id as nat, 4) + "  "@ + (if with_speed {
        device.speed + "  "@
    } else {
        Seq::empty()
    }) + readiness_text(lang, device.ready)
}

/// A device as it stands in the list, with its speed where asked for.
pub fn device_label(lang: Language, device: &DeviceInfo, with_speed: bool) -> (s: String)
    ensures
        s@ == device_row(lang, device@, with_speed),
{
    let mut s = dec_text(device.bus_number as u64);
    s.append(":");
    s.append(port_path_or_address(device).as_str());
    s.append("  ");
    push_hex(&mut s, device.vendor_id as u64, 4);
    s.append(":");
    push_hex(&mut s, device.product_id as u64, 4);
    s.append("  ");
    if with_speed {
        let ghost before = s@;
        s.append(device.speed.as_str());
        s.append("  ");
        assert(s@ =~= before + (device.speed@ + "  "@));
    } else {
        assert(s@ + Seq::<char>::empty() =~= s@);
    }
    s.append(readiness_label(lang, device.ready));
    s
}

/// The state of a device in the user's language: what macOS says of it is explained.
pub open spec fn status_text(lang: Language, status: Seq<char>) -> Seq<char> {
    if lang == Language::ZhCn && (mentions(status, "kUSBCurrentConfiguration"@) || mentions(
        status,
        "IOUSBHostInterface"@,
    )) {
        "macOS 已枚举 VID/PID，但还没有为设备创建 USB 配置或接口；原始状态："@ + status
    } else {
        status
    }
}

/// What is known of a device, in the language of the window.
pub fn localize_device_status(lang: Language, status: &str) -> (s: String)
    ensures
        s@ == status_text(lang, status@),
{
    if lang == Language::ZhCn && (str_contains(status, "kUSBCurrentConfiguration")
        || str_contains(status, "IOUSBHostInterface")) {
        let mut s =
            "macOS 已枚举 VID/PID，但还没有为设备创建 USB 配置或接口；原始状态：".to_string();
        s.append(status);
        return s;
    }
    status.to_string()
}

/// What the log says of a device that is not ready.
pub open spec fn not_ready_text(
    lang: Language,
    device: DeviceInfo<Seq<char>>,
    context: NotReadyContext,
) -> Seq<char> {
    context_text(lang, context) + ": "@ + device_ref(device) + " "@ + readiness_text(lang, false)
        + " ("@ + (match device.status {
        Some(status) => status_text(lang, status),
        None => readiness_text(lang, false),
    }) + ")"@
}

/// What the log says of a device that is not ready; the advice follows it.
pub fn not_ready_line(lang: Language, device: &DeviceInfo, context: NotReadyContext) -> (s: String)
    ensures
        s@ == not_ready_text(lang, device@, context),
{
    let status = match &device.status {
        Some(status) => localize_device_status(lang, status.as_str()),
        None => readiness_label(lang, false).to_string(),
    };
    let mut s = not_ready_context_label(lang, context).to_string();
    s.append(": ");
    s.append(format_device_ref(device).as_str());
    s.append(" ");
    s.append(readiness_label(lang, false));
    s.append(" (");
    s.append(status.as_str());
    s.append(")");
    s
}

/// Whether the advice for macOS follows an error.
pub fn wants_recovery_hint(error: &str) -> (r: bool)
    ensures
        r == (mentions(error@, "macOS has not configured it for USB transfers"@) || mentions(
            error@,
            "kUSBCurrentConfiguration"@,
        ) || mentions(error@, "IOUSBHostInterface"@)),
{
    str_contains(error, "macOS has not configured it for USB transfers") || str_contains(
        error,
        "kUSBCurrentConfiguration",
    ) || str_contains(error, "IOUSBHostInterface")
}

} // verus!
