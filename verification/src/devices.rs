//! The joysticks and serial ports of this host.

use crate::sorting::{is_sorted, lemma_in_order, lemma_in_order_mapped, sort, Ranked};
use crate::tables::optional_view;
use crate::text::{
    at_most, begins_with, characters, digit, is_blank, is_digit, joined, lemma_text_order,
    lemma_text_order_transitive, starts_with, strip_prefix, text_bytes, text_not_after, trim,
    trimmed,
};
use vstd::prelude::*;

verus! {

/// A device that can be opened.
#[derive(Debug, Clone, PartialEq, Eq)]
pub struct Device {
    pub kind: String,
    pub path: String,
    pub name: String,
}

/// The devices of this host.
#[derive(Debug)]
pub struct Devices {
    pub joysticks: Vec<Device>,
    pub serial: Vec<Device>,
}

/// An entry of the input directory, with what the kernel says of its name, if anything.
#[derive(Debug, Clone)]
pub struct InputNode {
    pub node: String,
    pub name_text: Option<String>,
}

/// What is known of a device.
pub ghost struct Found {
    pub kind: Seq<char>,
    pub path: Seq<char>,
    pub name: Seq<char>,
}

impl View for Device {
    type V = Found;

    open spec fn view(&self) -> Found {
        Found { kind: self.kind@, path: self.path@, name: self.name@ }
    }
}

impl Ranked for Device {
    open spec fn not_after(self, other: Self) -> bool {
        text_not_after(self.path@, other.path@)
    }

    fn is_not_after(&self, other: &Self) -> (result: bool) {
        at_most(self.path.as_str(), other.path.as_str())
    }

    proof fn lemma_total(left: Self, right: Self) {
        lemma_text_order(left.path@, right.path@);
    }

    proof fn lemma_transitive(first: Self, second: Self, third: Self) {
        lemma_text_order_transitive(first.path@, second.path@, third.path@);
    }
}

/// The devices of a list.
pub open spec fn device_views(devices: Seq<Device>) -> Seq<Found> {
    devices.map_values(|device: Device| device@)
}

/// `js` and a number.
pub open spec fn is_joystick(node: Seq<char>) -> bool {
    &&& begins_with(node, "js"@)
    &&& node.len() > "js"@.len()
    &&& forall|i: int| "js"@.len() <= i < node.len() ==> is_digit(#[trigger] node[i])
}

/// What the kernel says of a name, unless it is blank.
pub open spec fn kernel_name(text: Option<Seq<char>>) -> Option<Seq<char>> {
    match text {
        Some(text) => if is_blank(text) {
            None
        } else {
            Some(trimmed(text))
        },
        None => None,
    }
}

/// The joystick at an entry of the input directory.
pub open spec fn joystick_at(node: Seq<char>, name_text: Option<Seq<char>>) -> Found {
    Found {
        kind: "joystick"@,
        path: "/dev/input/"@ + node,
        name: match kernel_name(name_text) {
            Some(name) => name,
            None => "Joystick"@,
        },
    }
}

/// A serial port on USB.
pub open spec fn is_serial(node: Seq<char>) -> bool {
    begins_with(node, "ttyACM"@) || begins_with(node, "ttyUSB"@)
}

/// The serial port at an entry of the device directory.
pub open spec fn serial_at(node: Seq<char>) -> Found {
    Found { kind: "serial"@, path: "/dev/"@ + node, name: node }
}

/// The joysticks among the entries, in their order.
pub open spec fn joysticks_in(nodes: Seq<InputNode>) -> Seq<Found>
    decreases nodes.len(),
{
    if nodes.len() == 0 {
        Seq::empty()
    } else {
        let before = joysticks_in(nodes.drop_last());
        if is_joystick(nodes.last().node@) {
            before.push(joystick_at(nodes.last().node@, optional_view(nodes.last().name_text)))
        } else {
            before
        }
    }
}

/// The serial ports among the entries, in their order.
pub open spec fn serial_in(nodes: Seq<String>) -> Seq<Found>
    decreases nodes.len(),
{
    if nodes.len() == 0 {
        Seq::empty()
    } else {
        let before = serial_in(nodes.drop_last());
        if is_serial(nodes.last()@) {
            before.push(serial_at(nodes.last()@))
        } else {
            before
        }
    }
}

/// The devices are those found, each as often as it was found, by their paths.
pub open spec fn lists(devices: Seq<Device>, found: Seq<Found>) -> bool {
    &&& is_sorted(devices)
    &&& device_views(devices).to_multiset() == found.to_multiset()
}

fn sorted_devices(devices: Vec<Device>) -> (sorted: Vec<Device>)
    ensures
        lists(sorted@, device_views(devices@)),
{
    let ghost unsorted = devices@;
    let sorted = sort(devices);
    proof {
        lemma_in_order(unsorted);
        lemma_in_order_mapped(unsorted, |device: Device| device@);
        assert(device_views(sorted@) =~= sorted@.map_values(|device: Device| device@));
        assert(device_views(unsorted) =~= unsorted.map_values(|device: Device| device@));
    }
    sorted
}

/// Whether the entry is a joystick.
pub fn joystick_node(node: &str) -> (result: bool)
    ensures
        result == is_joystick(node@),
{
    if !starts_with(node, "js") {
        return false;
    }
    proof {
        reveal_strlit("js");
    }
    let chars = characters(node);
    if chars.len() <= 2 {
        return false;
    }
    let mut index: usize = 2;
    while index < chars.len()
        invariant
            chars@ == node@,
            "js"@.len() == 2,
            2 <= index <= chars@.len(),
            forall|i: int| 2 <= i < index ==> is_digit(#[trigger] node@[i]),
        decreases chars@.len() - index,
    {
        if !digit(chars[index]) {
            assert(!is_digit(node@[index as int]));
            return false;
        }
        index += 1;
    }
    true
}

/// What the kernel says of a name, unless it is blank.
pub fn joystick_name(text: &Option<String>) -> (name: Option<String>)
    ensures
        optional_view(name) == kernel_name(optional_view(*text)),
{
    match text {
        Some(text) => {
            let name = trim(text.as_str());
            if text_bytes(name.as_str()) == 0 {
                None
            } else {
                Some(name)
            }
        },
        None => None,
    }
}

/// The file in which the kernel keeps the name of an input node.
pub fn name_file(node: &str) -> (path: String)
    ensures
        path@ == "/sys/class/input/"@ + node@ + "/device/name"@,
{
    joined(joined("/sys/class/input/", node).as_str(), "/device/name")
}

/// The input node of a joystick's path.
pub fn input_node(path: &str) -> (node: Option<String>)
    ensures
        node is Some == begins_with(path@, "/dev/input/"@),
        node is Some ==> node->0@ == path@.skip("/dev/input/"@.len() as int),
{
    strip_prefix(path, "/dev/input/")
}

/// The name of the joystick at a path. `text` is what the kernel says of its node's name.
pub fn joystick_name_for(path: &str, text: &Option<String>) -> (name: Option<String>)
    ensures
        optional_view(name) == if begins_with(path@, "/dev/input/"@) {
            kernel_name(optional_view(*text))
        } else {
            None
        },
{
    match input_node(path) {
        Some(_) => joystick_name(text),
        None => None,
    }
}

/// The joysticks among the entries of the input directory, by their paths.
pub fn list_joysticks(nodes: &Vec<InputNode>) -> (devices: Vec<Device>)
    ensures
        lists(devices@, joysticks_in(nodes@)),
{
    let mut devices: Vec<Device> = Vec::new();
    assert(device_views(devices@) =~= Seq::empty());
    for index in 0..nodes.len()
        invariant
            device_views(devices@) == joysticks_in(nodes@.take(index as int)),
    {
        let ghost before = devices@;
        assert(nodes@.take(index + 1).drop_last() =~= nodes@.take(index as int));
        let entry = &nodes[index];
        if joystick_node(entry.node.as_str()) {
            let name = match joystick_name(&entry.name_text) {
                Some(name) => name,
                None => "Joystick".to_owned(),
            };
            let device = Device {
                kind: "joystick".to_owned(),
                name,
                path: joined("/dev/input/", entry.node.as_str()),
            };
            devices.push(device);
            assert(device_views(devices@) =~= device_views(before).push(device@));
        }
    }
    assert(nodes@.take(nodes@.len() as int) =~= nodes@);
    sorted_devices(devices)
}

/// The serial ports among the entries of the device directory, by their paths.
pub fn list_serial(nodes: &Vec<String>) -> (devices: Vec<Device>)
    ensures
        lists(devices@, serial_in(nodes@)),
{
    let mut devices: Vec<Device> = Vec::new();
    assert(device_views(devices@) =~= Seq::empty());
    for index in 0..nodes.len()
        invariant
            device_views(devices@) == serial_in(nodes@.take(index as int)),
    {
        let ghost before = devices@;
        assert(nodes@.take(index + 1).drop_last() =~= nodes@.take(index as int));
        let node = nodes[index].as_str();
        if starts_with(node, "ttyACM") || starts_with(node, "ttyUSB") {
            let device = Device {
                kind: "serial".to_owned(),
                path: joined("/dev/", node),
                name: node.to_owned(),
            };
            devices.push(device);
            assert(device_views(devices@) =~= device_views(before).push(device@));
        }
    }
    assert(nodes@.take(nodes@.len() as int) =~= nodes@);
    sorted_devices(devices)
}

/// The devices among the entries of the two directories.
pub fn list(input_nodes: &Vec<InputNode>, device_nodes: &Vec<String>) -> (devices: Devices)
    ensures
        lists(devices.joysticks@, joysticks_in(input_nodes@)),
        lists(devices.serial@, serial_in(device_nodes@)),
{
    Devices { joysticks: list_joysticks(input_nodes), serial: list_serial(device_nodes) }
}

} // verus!
