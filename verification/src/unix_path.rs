//! Paths as the file system has them: bytes, with `/` between the components.
use vstd::prelude::*;
use vstd::slice::slice_to_vec;
use vstd::utf8::{decode_utf8, encode_utf8, encode_utf8_decode_utf8, encode_utf8_valid_utf8, valid_utf8};

verus! {

/// The byte between two components.
pub const SEPARATOR: u8 = 0x2f;

/// The byte that, alone, makes up a component that stands for the directory
/// itself.
pub const DOT: u8 = 0x2e;

/// What `String::from_utf8_lossy` makes of bytes: their text, with a
/// replacement character for what is no UTF-8.
pub uninterp spec fn lossy_text(bytes: Seq<u8>) -> Seq<char>;

/// `String::from_utf8_lossy`, which gives the text of bytes, with a replacement
/// character for what is no UTF-8. The text is named `lossy_text`; that of
/// valid UTF-8 is what it encodes.
#[verifier::external_body]
pub(crate) fn text_of_bytes(bytes: &Vec<u8>) -> (r: String)
    ensures
        r@ == lossy_text(bytes@),
        valid_utf8(bytes@) ==> r@ == decode_utf8(bytes@),
{
    String::from_utf8_lossy(bytes).into_owned()
}

/// `path` and then `next`, which takes the place of `path` where it begins at
/// the root.
pub open spec fn path_joined(path: Seq<u8>, next: Seq<u8>) -> Seq<u8> {
    if next.len() > 0 && next[0] == SEPARATOR {
        next
    } else if path.len() == 0 || path.last() == SEPARATOR {
        path + next
    } else {
        path.push(SEPARATOR) + next
    }
}

/// Whether `place` is `root` joined with a path that does not begin at the root
/// of the system.
pub open spec fn below(root: Seq<u8>, place: Seq<u8>) -> bool {
    exists|rest: Seq<u8>|
        rest.len() > 0 && rest[0] != SEPARATOR && place == #[trigger] path_joined(root, rest)
}

/// What is joined to a path below `root` is below `root`, unless it begins at the
/// root of the system.
pub proof fn joining_stays_below(root: Seq<u8>, path: Seq<u8>, next: Seq<u8>)
    requires
        below(root, path),
        next.len() > 0 ==> next[0] != SEPARATOR,
    ensures
        below(root, path_joined(path, next)),
{
    let rest = choose|rest: Seq<u8>|
        rest.len() > 0 && rest[0] != SEPARATOR && path == #[trigger] path_joined(root, rest);
    let whole = path_joined(rest, next);
    assert(path.last() == rest.last());
    assert(path_joined(path, next) =~= path_joined(root, whole));
}

/// Whether a path begins with the component `.`.
pub open spec fn dotted(path: Seq<u8>) -> bool {
    path.len() > 0 && path[0] == DOT && (path.len() == 1 || path[1] == SEPARATOR)
}

/// The bytes before the named components: the root, or a leading `.`.
pub open spec fn lead_in(path: Seq<u8>) -> int {
    if path.len() > 0 && (path[0] == SEPARATOR || dotted(path)) {
        1
    } else {
        0
    }
}

/// Where the last component of `path[..end]` begins, no further left than
/// `floor`.
pub open spec fn last_start(path: Seq<u8>, floor: int, end: int) -> int
    decreases end,
{
    if 0 <= floor < end && path[end - 1] != SEPARATOR {
        last_start(path, floor, end - 1)
    } else {
        end
    }
}

/// `path[..end]` without its last component and the separator before it.
pub open spec fn last_dropped(path: Seq<u8>, floor: int, end: int) -> int {
    let start = last_start(path, floor, end);
    if start > floor {
        start - 1
    } else {
        floor
    }
}

/// Whether the last component of `path[..end]` names nothing: it is empty or a
/// `.`.
pub open spec fn last_is_void(path: Seq<u8>, floor: int, end: int) -> bool {
    let start = last_start(path, floor, end);
    start == end || (start + 1 == end && path[start] == DOT)
}

/// The last component begins behind a separator, or at `floor`.
pub proof fn last_start_bounds(path: Seq<u8>, floor: int, end: int)
    requires
        0 <= floor <= end,
    ensures
        floor <= last_start(path, floor, end) <= end,
        last_start(path, floor, end) > floor ==> path[last_start(path, floor, end) - 1] == SEPARATOR,
        forall|i: int| last_start(path, floor, end) <= i < end ==> #[trigger] path[i] != SEPARATOR,
    decreases end,
{
    if floor < end && path[end - 1] != SEPARATOR {
        last_start_bounds(path, floor, end - 1);
    }
}

/// The end of `path[..end]` without the components at its end that name
/// nothing.
pub open spec fn settled(path: Seq<u8>, floor: int, end: int) -> int
    decreases end,
{
    if 0 <= floor < end && last_is_void(path, floor, end) {
        proof {
            last_start_bounds(path, floor, end);
        }
        settled(path, floor, last_dropped(path, floor, end))
    } else {
        end
    }
}

/// The path without its last component, where it has one.
pub open spec fn path_parent(path: Seq<u8>) -> Option<Seq<u8>> {
    let floor = lead_in(path);
    let end = settled(path, floor, path.len() as int);
    if end > floor {
        Some(path.take(settled(path, floor, last_dropped(path, floor, end))))
    } else if dotted(path) {
        Some(Seq::empty())
    } else {
        None
    }
}

proof fn settled_bounds(path: Seq<u8>, floor: int, end: int)
    requires
        0 <= floor <= end,
    ensures
        floor <= settled(path, floor, end) <= end,
        settled(path, floor, end) == floor || !last_is_void(path, floor, settled(path, floor, end)),
    decreases end,
{
    last_start_bounds(path, floor, end);
    if floor < end && last_is_void(path, floor, end) {
        settled_bounds(path, floor, last_dropped(path, floor, end));
    }
}

/// A path of the file system.
#[derive(Debug)]
pub struct UnixPath {
    pub bytes: Vec<u8>,
}

impl View for UnixPath {
    type V = Seq<u8>;

    open spec fn view(&self) -> Seq<u8> {
        self.bytes@
    }
}

impl Clone for UnixPath {
    fn clone(&self) -> (r: Self)
        ensures
            r@ == self@,
    {
        UnixPath { bytes: slice_to_vec(self.bytes.as_slice()) }
    }
}

impl UnixPath {
    /// The path of the given bytes.
    pub fn new(bytes: Vec<u8>) -> (r: Self)
        ensures
            r@ == bytes@,
    {
        UnixPath { bytes }
    }

    /// The path that a text names.
    pub fn from_text(text: &str) -> (r: Self)
        ensures
            r@ == encode_utf8(text@),
    {
        UnixPath { bytes: slice_to_vec(text.as_bytes()) }
    }

    /// The text that shows the path.
    pub fn display(&self) -> (r: String)
        ensures
            r@ == lossy_text(self@),
            valid_utf8(self@) ==> r@ == decode_utf8(self@),
    {
        text_of_bytes(&self.bytes)
    }

    /// This path and then `next`.
    pub fn join(&self, next: &UnixPath) -> (r: Self)
        ensures
            r@ == path_joined(self@, next@),
    {
        if next.bytes.len() > 0 && next.bytes[0] == SEPARATOR {
            return next.clone();
        }
        let mut bytes = slice_to_vec(self.bytes.as_slice());
        if bytes.len() > 0 && bytes[bytes.len() - 1] != SEPARATOR {
            bytes.push(SEPARATOR);
        }
        let mut more = slice_to_vec(next.bytes.as_slice());
        bytes.append(&mut more);
        UnixPath { bytes }
    }

    /// This path and then the path that `name` names.
    pub fn join_text(&self, name: &str) -> (r: Self)
        ensures
            r@ == path_joined(self@, encode_utf8(name@)),
    {
        self.join(&UnixPath::from_text(name))
    }

    /// Where the last component of `bytes[..end]` begins.
    fn last_start_of(bytes: &Vec<u8>, floor: usize, end: usize) -> (r: usize)
        requires
            floor <= end <= bytes@.len(),
        ensures
            r == last_start(bytes@, floor as int, end as int),
            floor <= r <= end,
    {
        let mut start: usize = end;
        while start > floor && bytes[start - 1] != SEPARATOR
            invariant
                floor <= start <= end <= bytes@.len(),
                last_start(bytes@, floor as int, start as int) == last_start(
                    bytes@,
                    floor as int,
                    end as int,
                ),
            decreases start,
        {
            start -= 1;
        }
        start
    }

    /// `bytes[..end]` without its last component.
    fn drop_last_of(bytes: &Vec<u8>, floor: usize, end: usize) -> (r: usize)
        requires
            floor <= end <= bytes@.len(),
        ensures
            r == last_dropped(bytes@, floor as int, end as int),
            floor <= r <= end,
            floor < end ==> r < end,
    {
        proof {
            last_start_bounds(bytes@, floor as int, end as int);
        }
        let start = Self::last_start_of(bytes, floor, end);
        if start > floor {
            start - 1
        } else {
            floor
        }
    }

    /// `bytes[..end]` without the components at its end that name nothing.
    fn settle(bytes: &Vec<u8>, floor: usize, end: usize) -> (r: usize)
        requires
            floor <= end <= bytes@.len(),
        ensures
            r == settled(bytes@, floor as int, end as int),
            floor <= r <= end,
    {
        let mut end: usize = end;
        let ghost first = end as int;
        while end > floor
            invariant_except_break
                settled(bytes@, floor as int, end as int) == settled(bytes@, floor as int, first),
            invariant
                floor <= end <= first <= bytes@.len(),
            ensures
                end == settled(bytes@, floor as int, first),
            decreases end,
        {
            let start = Self::last_start_of(bytes, floor, end);
            if start == end || (start + 1 == end && bytes[start] == DOT) {
                end = Self::drop_last_of(bytes, floor, end);
            } else {
                break;
            }
        }
        end
    }

    /// The path without its last component, where it has one: a path that is
    /// empty or ends at the root has none.
    pub fn parent(&self) -> (r: Option<UnixPath>)
        ensures
            r is Some == path_parent(self@) is Some,
            r matches Some(parent) ==> path_parent(self@) == Some(parent@),
    {
        let dotted = self.bytes.len() > 0 && self.bytes[0] == DOT && (self.bytes.len() == 1
            || self.bytes[1] == SEPARATOR);
        let floor: usize = if self.bytes.len() > 0 && (self.bytes[0] == SEPARATOR || dotted) {
            1
        } else {
            0
        };
        let end = Self::settle(&self.bytes, floor, self.bytes.len());
        if end > floor {
            let cut = Self::drop_last_of(&self.bytes, floor, end);
            let cut = Self::settle(&self.bytes, floor, cut);
            let mut bytes = slice_to_vec(self.bytes.as_slice());
            bytes.truncate(cut);
            proof {
                assert(bytes@ =~= self@.take(cut as int));
            }
            Some(UnixPath { bytes })
        } else if dotted {
            let r = UnixPath { bytes: Vec::new() };
            proof {
                assert(r@ =~= Seq::empty());
            }
            Some(r)
        } else {
            None
        }
    }
}

/// Whether bytes are the name of an entry of a directory.
pub open spec fn entry_name(name: Seq<u8>) -> bool {
    &&& name.len() > 0
    &&& name != seq![DOT]
    &&& forall|i: int| 0 <= i < name.len() ==> #[trigger] name[i] != SEPARATOR
}

/// The text of a path that was made from a text is that text.
pub proof fn display_of_text(text: Seq<char>)
    ensures
        valid_utf8(encode_utf8(text)),
        decode_utf8(encode_utf8(text)) == text,
{
    encode_utf8_valid_utf8(text);
    encode_utf8_decode_utf8(text);
}

/// The parent of an entry of a directory is that directory, where the path of
/// the directory ends in a component that names something.
pub proof fn parent_of_an_entry(path: Seq<u8>, name: Seq<u8>)
    requires
        path.len() > lead_in(path),
        !last_is_void(path, lead_in(path), path.len() as int),
        entry_name(name),
    ensures
        path_parent(path_joined(path, name)) == Some(path),
{
    let whole = path_joined(path, name);
    let floor = lead_in(path);
    let len = path.len() as int;
    last_start_bounds(path, floor, len);
    assert(path.last() != SEPARATOR);
    assert(whole =~= path.push(SEPARATOR) + name);
    assert(lead_in(whole) == floor);
    name_is_last(whole, floor, len + 1, whole.len() as int);
    let end = whole.len() as int;
    assert(last_start(whole, floor, end) == len + 1);
    if name.len() == 1 {
        assert(name[0] != DOT) by {
            if name[0] == DOT {
                assert(name =~= seq![DOT]);
            }
        }
        assert(whole[len + 1] == name[0]);
    }
    assert(!last_is_void(whole, floor, end));
    assert(settled(whole, floor, end) == end);
    assert(last_dropped(whole, floor, end) == len);
    same_last_start(whole, path, floor, len);
    assert(!last_is_void(whole, floor, len));
    assert(settled(whole, floor, len) == len);
    assert(whole.take(len) =~= path);
}

proof fn name_is_last(path: Seq<u8>, floor: int, start: int, end: int)
    requires
        0 <= floor < start <= end <= path.len(),
        path[start - 1] == SEPARATOR,
        forall|i: int| start <= i < end ==> #[trigger] path[i] != SEPARATOR,
    ensures
        last_start(path, floor, end) == start,
    decreases end,
{
    if end > start {
        name_is_last(path, floor, start, end - 1);
    }
}

proof fn same_last_start(a: Seq<u8>, b: Seq<u8>, floor: int, end: int)
    requires
        0 <= floor <= end <= a.len(),
        end <= b.len(),
        forall|i: int| 0 <= i < end ==> #[trigger] a[i] == b[i],
    ensures
        last_start(a, floor, end) == last_start(b, floor, end),
    decreases end,
{
    if floor < end {
        assert(a[end - 1] == b[end - 1]);
        if a[end - 1] != SEPARATOR {
            same_last_start(a, b, floor, end - 1);
        }
    }
}

/// A parent is shorter than its path, and begins as it does.
pub proof fn parent_is_a_start(path: Seq<u8>)
    requires
        path_parent(path) is Some,
    ensures
        path_parent(path)->Some_0.is_prefix_of(path),
        path_parent(path)->Some_0.len() < path.len(),
{
    let floor = lead_in(path);
    let len = path.len() as int;
    settled_bounds(path, floor, len);
    let end = settled(path, floor, len);
    last_start_bounds(path, floor, end);
    settled_bounds(path, floor, last_dropped(path, floor, end));
    let parent = path_parent(path)->Some_0;
    assert(parent =~= path.take(parent.len() as int));
}

/// A relative path is joined with one separator between, unless there is one
/// already or nothing before; a path that begins at the root takes the place of
/// the other. Only what is joined stands behind.
pub proof fn joined_paths(path: Seq<u8>, next: Seq<u8>)
    ensures
        next.len() > 0 && next[0] == '/' as u8 ==> path_joined(path, next) == next,
        next.len() > 0 && next[0] != '/' as u8 ==> {
            let whole = path_joined(path, next);
            let start = whole.len() - next.len();
            &&& whole.skip(start) == next
            &&& path.len() == 0 ==> start == 0
            &&& path.len() > 0 && path.last() == '/' as u8 ==> start == path.len() && whole.take(
                start,
            ) == path
            &&& path.len() > 0 && path.last() != '/' as u8 ==> start == path.len() + 1
                && whole.take(start) == path.push('/' as u8)
        },
{
    let whole = path_joined(path, next);
    let start = whole.len() - next.len();
    if next.len() > 0 && next[0] != '/' as u8 {
        assert(whole.skip(start) =~= next);
        if path.len() > 0 && path.last() == '/' as u8 {
            assert(whole.take(start) =~= path);
        } else if path.len() > 0 {
            assert(whole.take(start) =~= path.push('/' as u8));
        }
    }
}

/// Joining is done one path after the other, in whatever order.
pub proof fn joining_is_associative(path: Seq<u8>, middle: Seq<u8>, last: Seq<u8>)
    requires
        middle.len() > 0,
    ensures
        path_joined(path_joined(path, middle), last) == path_joined(
            path,
            path_joined(middle, last),
        ),
{
    assert(path_joined(path, middle).last() == middle.last());
    assert(path_joined(path_joined(path, middle), last) =~= path_joined(
        path,
        path_joined(middle, last),
    ));
}

/// The root and the empty path have no parent.
pub proof fn root_has_no_parent()
    ensures
        path_parent(seq!['/' as u8]) is None,
        path_parent(Seq::empty()) is None,
{
    let root = seq!['/' as u8];
    assert(settled(root, 1, 1) == 1);
    assert(settled(Seq::<u8>::empty(), 0, 0) == 0);
}

/// The parent of an entry of the root is the root, and that of a single name is
/// the empty path.
pub proof fn parent_of_a_first_entry(name: Seq<u8>)
    requires
        entry_name(name),
    ensures
        path_parent(seq!['/' as u8] + name) == Some(seq!['/' as u8]),
        path_parent(name) == Some(Seq::<u8>::empty()),
{
    let root = seq!['/' as u8];
    let whole = root + name;
    let end = whole.len() as int;
    assert(name[0] != SEPARATOR);
    if name.len() == 1 {
        if name[0] == DOT {
            assert(name =~= seq![DOT]);
        }
    }
    assert(!dotted(name)) by {
        if dotted(name) && name.len() > 1 {
            assert(name[1] != SEPARATOR);
        }
    }
    assert forall|i: int| 1 <= i < end implies #[trigger] whole[i] != SEPARATOR by {
        assert(whole[i] == name[i - 1]);
    }
    no_separator_before(whole, 1, end);
    assert(last_start(whole, 1, end) == 1);
    assert(!last_is_void(whole, 1, end));
    assert(settled(whole, 1, end) == end);
    assert(last_dropped(whole, 1, end) == 1);
    assert(settled(whole, 1, 1) == 1);
    assert(whole.take(1) =~= root);
    no_separator_before(name, 0, name.len() as int);
    assert(last_start(name, 0, name.len() as int) == 0);
    assert(!last_is_void(name, 0, name.len() as int));
    assert(settled(name, 0, name.len() as int) == name.len());
    assert(settled(name, 0, 0) == 0);
    assert(name.take(0) =~= Seq::empty());
}

proof fn no_separator_before(path: Seq<u8>, floor: int, end: int)
    requires
        0 <= floor <= end <= path.len(),
        forall|i: int| floor <= i < end ==> #[trigger] path[i] != SEPARATOR,
    ensures
        last_start(path, floor, end) == floor,
    decreases end,
{
    if floor < end {
        no_separator_before(path, floor, end - 1);
    }
}

} // verus!
