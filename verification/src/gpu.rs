//! Which GPU a session renders and encodes on: the identity the kernel reports of a card, the
//! tokens that select one, and the render node that the choice comes to.

use vstd::prelude::*;
use vstd::slice::slice_subrange;
use vstd::string::*;
use crate::text;
use crate::text::{
    chars_of, contains, find_separator, lines, parse_unsigned, same, split, starts_with, strip_0x,
    trim,
};

verus! {

/// A text in lower case, by the rules of Unicode.
pub uninterp spec fn lowercase(s: Seq<char>) -> Seq<char>;

/// A letter of ASCII in lower case.
pub open spec fn ascii_lower(c: char) -> char {
    if 'A' <= c <= 'Z' {
        (c as u8 + 32) as char
    } else {
        c
    }
}

/// `str::to_lowercase`: the text in lower case, which depends on the text alone. Of a text of
/// ASCII characters each letter is put in lower case and nothing else changes.
#[verifier::external_body]
fn lowered(s: &[char]) -> (r: String)
    ensures
        r@ == lowercase(s@),
        (forall|i: int| 0 <= i < s@.len() ==> s@[i] <= '\u{7f}') ==> r@ == s@.map_values(
            |c: char| ascii_lower(c),
        ),
{
    String::from_iter(s.iter()).to_lowercase()
}

/// The driver of a render node for encoder routing: what its driver link points to, in lower case;
/// empty where the node has no such link, which stands for no detectable GPU.
pub fn get_gpu_driver(link: Option<&str>) -> (driver: String)
    ensures
        driver@ == match link {
            Some(l) => lowercase(l@),
            None => Seq::empty(),
        },
{
    match link {
        Some(l) => lowered(chars_of(l).as_slice()),
        None => {
            let driver = String::new();
            assert(driver@ =~= Seq::<char>::empty());
            driver
        },
    }
}

/// Whether an encode node's driver routes to NVENC.
pub open spec fn selects_nvenc(driver: Seq<char>) -> bool {
    driver.len() == 0 || text::holds(driver, "nvidia"@)
}

/// Whether an encode node's driver name routes to NVENC: NVIDIA, or unknown (the usual shape of a
/// container without render nodes), so that NVENC is tried ahead of software. Any other driver
/// routes to VA-API. Both capture paths pick the same encoder for the same node by it.
pub fn driver_selects_nvenc(encode_driver: &str) -> (b: bool)
    ensures
        b == selects_nvenc(encode_driver@),
{
    let driver = chars_of(encode_driver);
    let name = chars_of("nvidia");
    driver.len() == 0 || contains(driver.as_slice(), name.as_slice())
}

/// A card's identity as the kernel reports it.
#[derive(Debug)]
pub struct CardIdentity {
    pub driver: String,
    pub pci_vendor: Option<u32>,
    pub compatibles: Vec<String>,
}

/// An identity as plain text and numbers.
#[verifier::ext_equal]
pub struct IdentityView {
    pub driver: Seq<char>,
    pub pci_vendor: Option<u32>,
    pub compatibles: Seq<Seq<char>>,
}

/// The texts of a list of strings.
pub open spec fn texts(v: Seq<String>) -> Seq<Seq<char>> {
    v.map(|_i: int, s: String| s@)
}

impl View for CardIdentity {
    type V = IdentityView;

    open spec fn view(&self) -> IdentityView {
        IdentityView {
            driver: self.driver@,
            pci_vendor: self.pci_vendor,
            compatibles: texts(self.compatibles@),
        }
    }
}

impl IdentityView {
    /// An identity of which nothing is known.
    pub open spec fn unknown() -> IdentityView {
        IdentityView { driver: Seq::empty(), pci_vendor: None, compatibles: Seq::empty() }
    }
}

/// A 32-bit number in hexadecimal.
pub open spec fn hex32(s: Seq<char>) -> Option<u32> {
    match text::unsigned(s, 16, 0xffff_ffff) {
        Some(v) => Some(v as u32),
        None => None,
    }
}

fn parse_hex32(s: &[char]) -> (r: Option<u32>)
    ensures
        r == hex32(s@),
{
    match parse_unsigned(s, 16, 0xffff_ffff) {
        Some(v) => Some(v as u32),
        None => None,
    }
}

/// What one line of a card's `uevent` adds to its identity.
pub open spec fn with_line(id: IdentityView, line: Seq<char>) -> IdentityView {
    if text::opens_with(line, "DRIVER="@) {
        IdentityView {
            driver: lowercase(text::trimmed(line.skip("DRIVER="@.len() as int))),
            ..id
        }
    } else if text::opens_with(line, "PCI_ID="@) {
        IdentityView {
            pci_vendor: hex32(text::parts(line.skip("PCI_ID="@.len() as int), seq![':'])[0]),
            ..id
        }
    } else if text::opens_with(line, "OF_COMPATIBLE_"@) && !text::opens_with(
        line,
        "OF_COMPATIBLE_N"@,
    ) && text::next_separator(line, seq!['='], 0) < line.len() {
        IdentityView {
            compatibles: id.compatibles.push(
                lowercase(text::trimmed(line.skip(text::next_separator(line, seq!['='], 0) + 1))),
            ),
            ..id
        }
    } else {
        id
    }
}

/// The identity that the first `n` lines of a card's `uevent` tell.
pub open spec fn told(lines: Seq<Seq<char>>, n: int) -> IdentityView
    decreases n,
{
    if n <= 0 {
        IdentityView::unknown()
    } else {
        with_line(told(lines, n - 1), lines[n - 1])
    }
}

/// The compatibles that a devicetree `modalias` lists, each behind a C.
pub open spec fn alias_compatibles(modalias: Seq<char>) -> Seq<Seq<char>> {
    let alias = text::trimmed(modalias);
    if text::opens_with(alias, "of:"@) {
        text::parts(alias.skip("of:"@.len() as int), seq!['C']).skip(1).map_values(
            |c: Seq<char>| lowercase(c),
        )
    } else {
        Seq::empty()
    }
}

/// What a card's files say of it; `None` of a file that cannot be read.
#[derive(Debug)]
pub struct CardFiles {
    pub uevent: Option<String>,
    pub vendor: Option<String>,
    pub modalias: Option<String>,
    /// What the `driver` link's last part reads.
    pub driver: Option<String>,
}

/// The identity that a card's files tell: `uevent` first, and for each thing it leaves out the
/// file that has it.
pub open spec fn identity_of(files: CardFiles) -> IdentityView {
    let id = match files.uevent {
        Some(u) => told(text::lines_of(u@), text::lines_of(u@).len() as int),
        None => IdentityView::unknown(),
    };
    IdentityView {
        driver: if id.driver.len() != 0 {
            id.driver
        } else {
            match files.driver {
                Some(d) => lowercase(d@),
                None => Seq::empty(),
            }
        },
        pci_vendor: if id.pci_vendor is Some {
            id.pci_vendor
        } else {
            match files.vendor {
                Some(v) => hex32(text::without_0x(text::trimmed(v@))),
                None => None,
            }
        },
        compatibles: if id.compatibles.len() != 0 {
            id.compatibles
        } else {
            match files.modalias {
                Some(m) => alias_compatibles(m@),
                None => Seq::empty(),
            }
        },
    }
}

fn add_line(id: &mut CardIdentity, line: &[char])
    ensures
        final(id)@ == with_line(old(id)@, line@),
{
    let driver = chars_of("DRIVER=");
    let pci = chars_of("PCI_ID=");
    let of = chars_of("OF_COMPATIBLE_");
    let of_count = chars_of("OF_COMPATIBLE_N");
    let ghost before = id@;
    if starts_with(line, driver.as_slice()) {
        let rest = slice_subrange(line, driver.len(), line.len());
        assert(rest@ =~= line@.skip("DRIVER="@.len() as int));
        id.driver = lowered(trim(rest));
    } else if starts_with(line, pci.as_slice()) {
        let rest = slice_subrange(line, pci.len(), line.len());
        assert(rest@ =~= line@.skip("PCI_ID="@.len() as int));
        let colon: [char; 1] = [':'];
        assert(colon@ =~= seq![':']);
        let fields = split(rest, colon.as_slice());
        assert(text::slice_views(fields@)[0] == fields@[0]@);
        id.pci_vendor = parse_hex32(fields[0]);
    } else if starts_with(line, of.as_slice()) && !starts_with(line, of_count.as_slice()) {
        let equals: [char; 1] = ['='];
        assert(equals@ =~= seq!['=']);
        let at: usize = find_separator(line, equals.as_slice(), 0);
        if at < line.len() {
            let rest = slice_subrange(line, at + 1, line.len());
            assert(rest@ =~= line@.skip(at + 1));
            let name = lowered(trim(rest));
            let ghost names = id.compatibles@;
            id.compatibles.push(name);
            assert(texts(id.compatibles@) =~= texts(names).push(name@));
        }
    }
    assert(id@ =~= with_line(before, line@));
}

fn read_alias(modalias: &str) -> (r: Vec<String>)
    ensures
        texts(r@) == alias_compatibles(modalias@),
{
    let mut r: Vec<String> = Vec::new();
    let all = chars_of(modalias);
    let alias = trim(all.as_slice());
    let key = chars_of("of:");
    if starts_with(alias, key.as_slice()) {
        let rest = slice_subrange(alias, key.len(), alias.len());
        assert(rest@ =~= alias@.skip("of:"@.len() as int));
        let mark: [char; 1] = ['C'];
        assert(mark@ =~= seq!['C']);
        let fields = split(rest, mark.as_slice());
        let ghost views = text::slice_views(fields@);
        let ghost listed = views.skip(1).map_values(|c: Seq<char>| lowercase(c));
        let mut i: usize = 1;
        while i < fields.len()
            invariant
                1 <= i <= fields@.len(),
                views == text::slice_views(fields@),
                listed == views.skip(1).map_values(|c: Seq<char>| lowercase(c)),
                texts(r@) == listed.take(i - 1),
            decreases fields@.len() - i,
        {
            let ghost before = r@;
            let name = lowered(fields[i]);
            r.push(name);
            assert(listed[i - 1] == lowercase(views[i as int]));
            assert(texts(r@) =~= texts(before).push(name@));
            assert(texts(r@) =~= listed.take(i as int));
            i += 1;
        }
        assert(texts(r@) =~= listed);
    } else {
        assert(texts(r@) =~= Seq::<Seq<char>>::empty());
    }
    r
}

/// Read a card's identity from what its files say. `uevent` is the first source: it is uniform
/// across buses and readable in unprivileged containers. Each field has a fallback for cards
/// whose `uevent` leaves it out: `vendor`, `modalias`, and the `driver` link.
pub fn read_card_identity(files: &CardFiles) -> (id: CardIdentity)
    ensures
        id@ == identity_of(*files),
{
    let mut id = CardIdentity { driver: String::new(), pci_vendor: None, compatibles: Vec::new() };
    assert(id@ =~= IdentityView::unknown());
    let ghost mut first = IdentityView::unknown();
    if let Some(uevent) = &files.uevent {
        let all = chars_of(uevent.as_str());
        let rows = lines(all.as_slice());
        let ghost views = text::slice_views(rows@);
        let mut i: usize = 0;
        while i < rows.len()
            invariant
                i <= rows@.len(),
                views == text::slice_views(rows@),
                id@ == told(views, i as int),
            decreases rows@.len() - i,
        {
            assert(views[i as int] == rows@[i as int]@);
            add_line(&mut id, rows[i]);
            i += 1;
        }
        proof {
            first = told(views, views.len() as int);
        }
    }
    assert(id@ == first);
    if id.pci_vendor.is_none() {
        if let Some(vendor) = &files.vendor {
            let all = chars_of(vendor.as_str());
            id.pci_vendor = parse_hex32(strip_0x(trim(all.as_slice())));
        }
    }
    assert(first.compatibles.len() == id.compatibles@.len());
    if id.compatibles.len() == 0 {
        if let Some(modalias) = &files.modalias {
            id.compatibles = read_alias(modalias.as_str());
        }
    }
    if id.driver.as_str().unicode_len() == 0 {
        match &files.driver {
            Some(driver) => {
                let all = chars_of(driver.as_str());
                id.driver = lowered(all.as_slice());
            },
            None => {},
        }
    }
    assert(id@ =~= identity_of(*files));
    id
}

/// The PCI vendors that go by a human name. The kernel has no such table.
pub open spec fn vendor_pci_ids(name: Seq<char>) -> Seq<u32> {
    if name == "nvidia"@ {
        seq![0x10de, 0x12d2]
    } else if name == "amd"@ {
        seq![0x1002, 0x1022]
    } else if name == "ati"@ {
        seq![0x1002]
    } else if name == "intel"@ {
        seq![0x8086, 0x8087]
    } else if name == "arm"@ {
        seq![0x13b5]
    } else if name == "qualcomm"@ {
        seq![0x5143, 0x17cb]
    } else if name == "broadcom"@ {
        seq![0x14e4]
    } else if name == "apple"@ {
        seq![0x106b]
    } else if name == "mediatek"@ {
        seq![0x14c3]
    } else if name == "samsung"@ {
        seq![0x144d]
    } else if name == "vmware"@ {
        seq![0x15ad]
    } else if name == "microsoft"@ {
        seq![0x1414]
    } else if name == "virtio"@ {
        seq![0x1af4]
    } else {
        Seq::empty()
    }
}

/// The devicetree prefix of a human name, only where they differ.
pub open spec fn of_prefix(name: Seq<char>) -> Seq<char> {
    if name == "mali"@ {
        "arm"@
    } else if name == "qualcomm"@ {
        "qcom"@
    } else if name == "adreno"@ {
        "qcom"@
    } else if name == "broadcom"@ {
        "brcm"@
    } else if name == "videocore"@ {
        "brcm"@
    } else if name == "imagination"@ {
        "img"@
    } else if name == "powervr"@ {
        "img"@
    } else {
        name
    }
}

fn is_word(name: &[char], word: &str) -> (b: bool)
    ensures
        b == (name@ == word@),
{
    let w = chars_of(word);
    same(name, w.as_slice())
}

fn vendor_has(name: &[char], vid: u32) -> (b: bool)
    ensures
        b == vendor_pci_ids(name@).contains(vid),
{
    let (a, b): (u32, u32) = if is_word(name, "nvidia") {
        (0x10de, 0x12d2)
    } else if is_word(name, "amd") {
        (0x1002, 0x1022)
    } else if is_word(name, "ati") {
        (0x1002, 0x1002)
    } else if is_word(name, "intel") {
        (0x8086, 0x8087)
    } else if is_word(name, "arm") {
        (0x13b5, 0x13b5)
    } else if is_word(name, "qualcomm") {
        (0x5143, 0x17cb)
    } else if is_word(name, "broadcom") {
        (0x14e4, 0x14e4)
    } else if is_word(name, "apple") {
        (0x106b, 0x106b)
    } else if is_word(name, "mediatek") {
        (0x14c3, 0x14c3)
    } else if is_word(name, "samsung") {
        (0x144d, 0x144d)
    } else if is_word(name, "vmware") {
        (0x15ad, 0x15ad)
    } else if is_word(name, "microsoft") {
        (0x1414, 0x1414)
    } else if is_word(name, "virtio") {
        (0x1af4, 0x1af4)
    } else {
        return false;
    };
    proof {
        let ids = vendor_pci_ids(name@);
        assert(ids[0] == a);
        if ids.len() == 2 {
            assert(ids[1] == b);
        }
    }
    vid == a || vid == b
}

fn prefix_of(name: &[char]) -> (r: Vec<char>)
    ensures
        r@ == of_prefix(name@),
{
    let word = if is_word(name, "mali") {
        "arm"
    } else if is_word(name, "qualcomm") {
        "qcom"
    } else if is_word(name, "adreno") {
        "qcom"
    } else if is_word(name, "broadcom") {
        "brcm"
    } else if is_word(name, "videocore") {
        "brcm"
    } else if is_word(name, "imagination") {
        "img"
    } else if is_word(name, "powervr") {
        "img"
    } else {
        return vstd::slice::slice_to_vec(name);
    };
    chars_of(word)
}

/// A card matches a token: by its driver's name, its PCI vendor as a number or by a human name,
/// or the first part of one of its compatibles, literally or by a human name.
pub open spec fn matches_token(token: Seq<char>, id: IdentityView) -> bool {
    ||| id.driver.len() != 0 && token == id.driver
    ||| (id.pci_vendor matches Some(vid) && (hex32(text::without_0x(token)) == Some(vid)
        || vendor_pci_ids(token).contains(vid)))
    ||| exists|i: int|
        0 <= i < id.compatibles.len() && text::opens_with(
            #[trigger] id.compatibles[i],
            of_prefix(token).push(','),
        )
}

/// Does a card match the requested token? Accepted are a kernel driver's name (exactly), a raw
/// PCI vendor id (`0x10de` or `10de`), a devicetree vendor prefix, or a human vendor name.
pub fn card_matches_token(token: &str, id: &CardIdentity) -> (b: bool)
    ensures
        b == matches_token(token@, id@),
{
    let name = chars_of(token);
    if id.driver.as_str().unicode_len() != 0 {
        let driver = chars_of(id.driver.as_str());
        if same(name.as_slice(), driver.as_slice()) {
            return true;
        }
    }
    if let Some(vid) = id.pci_vendor {
        if let Some(v) = parse_hex32(strip_0x(name.as_slice())) {
            if v == vid {
                return true;
            }
        }
        if vendor_has(name.as_slice(), vid) {
            return true;
        }
    }
    let mut want = prefix_of(name.as_slice());
    want.push(',');
    let ghost names = id@.compatibles;
    let mut i: usize = 0;
    while i < id.compatibles.len()
        invariant
            i <= id.compatibles@.len(),
            names == texts(id.compatibles@),
            names == id@.compatibles,
            want@ == of_prefix(token@).push(','),
            forall|j: int| 0 <= j < i ==> !text::opens_with(#[trigger] names[j], want@),
        decreases id.compatibles@.len() - i,
    {
        let c = chars_of(id.compatibles[i].as_str());
        assert(c@ == names[i as int]);
        if starts_with(c.as_slice(), want.as_slice()) {
            return true;
        }
        i += 1;
    }
    false
}

/// A card of which nothing is known matches no token.
pub proof fn unknown_cards_match_nothing(token: Seq<char>)
    ensures
        !matches_token(token, IdentityView::unknown()),
{
}

/// What an auto-GPU request, in lower case, comes to.
pub open spec fn auto_gpu(value: Seq<char>) -> Option<Option<Seq<char>>> {
    if value == ""@ || value == "false"@ || value == "0"@ || value == "off"@ || value == "no"@ {
        None
    } else if value == "true"@ || value == "1"@ || value == "on"@ || value == "yes"@ {
        Some(None)
    } else {
        Some(Some(value))
    }
}

/// The request's token as text.
pub open spec fn token_text(r: Option<Option<String>>) -> Option<Option<Seq<char>>> {
    match r {
        None => None,
        Some(None) => Some(None),
        Some(Some(t)) => Some(Some(t@)),
    }
}

/// Parse an auto-GPU request that is in lower case.
pub fn parse_lowered_auto_gpu(value: String) -> (r: Option<Option<String>>)
    ensures
        token_text(r) == auto_gpu(value@),
{
    let v = chars_of(value.as_str());
    let s = v.as_slice();
    if is_word(s, "") || is_word(s, "false") || is_word(s, "0") || is_word(s, "off") || is_word(
        s,
        "no",
    ) {
        None
    } else if is_word(s, "true") || is_word(s, "1") || is_word(s, "on") || is_word(s, "yes") {
        Some(None)
    } else {
        Some(Some(value))
    }
}

/// Parse an auto-GPU request. `None` is disabled; `Some(None)` picks the first GPU overall;
/// `Some(Some(token))` picks the first GPU whose identity matches the token, whatever its case.
pub fn parse_auto_gpu(value: &str) -> (r: Option<Option<String>>)
    ensures
        token_text(r) == auto_gpu(lowercase(value@)),
        (forall|i: int| 0 <= i < value@.len() ==> value@[i] <= '\u{7f}') ==> token_text(r)
            == auto_gpu(value@.map_values(|c: char| ascii_lower(c))),
{
    let v = chars_of(value);
    parse_lowered_auto_gpu(lowered(v.as_slice()))
}

/// A card as `/sys/class/drm` lists it: its name, its identity, and the names under its `drm`
/// directory, each with whether the device node of that name exists.
#[derive(Debug)]
pub struct Card {
    pub name: String,
    pub identity: CardIdentity,
    pub nodes: Vec<(String, bool)>,
}

/// The number of a card, `None` of an entry that is none (a connector).
pub open spec fn card_number(name: Seq<char>) -> Option<nat> {
    if text::opens_with(name, "card"@) {
        text::unsigned(name.skip("card"@.len() as int), 10, 0xffff_ffff)
    } else {
        None
    }
}

/// A name is that of a render node.
pub open spec fn names_render_node(name: Seq<char>) -> bool {
    text::opens_with(name, "renderD"@)
}

/// The first usable render node of a card from the `i`th name on.
pub open spec fn first_node(nodes: Seq<(String, bool)>, i: int) -> Option<Seq<char>>
    decreases nodes.len() - i,
{
    if i >= nodes.len() {
        None
    } else if names_render_node(nodes[i].0@) && nodes[i].1 {
        Some(nodes[i].0@)
    } else {
        first_node(nodes, i + 1)
    }
}

/// A card answers the request: it has a number, matches the token where there is one, and has a
/// usable render node.
pub open spec fn answers(card: Card, token: Option<&str>) -> bool {
    &&& card_number(card.name@) is Some
    &&& (token matches Some(t) ==> matches_token(t@, card.identity@))
    &&& first_node(card.nodes@, 0) is Some
}

/// The `i`th card is the one with the lowest number that answers the request, and among equals
/// the first listed.
pub open spec fn chosen(cards: Seq<Card>, token: Option<&str>, i: int) -> bool {
    &&& 0 <= i < cards.len()
    &&& answers(cards[i], token)
    &&& forall|j: int|
        0 <= j < cards.len() && answers(#[trigger] cards[j], token) ==> {
            let a = card_number(cards[i].name@)->0;
            let b = card_number(cards[j].name@)->0;
            a < b || (a == b && i <= j)
        }
}

/// One text comes ahead of another, character by character.
pub open spec fn comes_first(a: Seq<char>, b: Seq<char>) -> bool
    decreases a.len(),
{
    if b.len() == 0 {
        false
    } else if a.len() == 0 {
        true
    } else if a[0] != b[0] {
        a[0] < b[0]
    } else {
        comes_first(a.skip(1), b.skip(1))
    }
}

proof fn order_is_transitive(a: Seq<char>, b: Seq<char>, c: Seq<char>)
    requires
        comes_first(a, b),
        comes_first(b, c),
    ensures
        comes_first(a, c),
    decreases a.len(),
{
    if a.len() > 0 && b.len() > 0 && c.len() > 0 && a[0] == b[0] && b[0] == c[0] {
        order_is_transitive(a.skip(1), b.skip(1), c.skip(1));
    }
}

fn is_lower(a: char, b: char) -> (r: bool)
    ensures
        r == (a < b),
{
    (a as u32) < (b as u32)
}

fn is_first(a: &[char], b: &[char]) -> (r: bool)
    ensures
        r == comes_first(a@, b@),
{
    let mut i: usize = 0;
    assert(a@.skip(0) =~= a@);
    assert(b@.skip(0) =~= b@);
    while i < a.len() && i < b.len() && a[i] == b[i]
        invariant
            i <= a@.len(),
            i <= b@.len(),
            comes_first(a@.skip(i as int), b@.skip(i as int)) == comes_first(a@, b@),
        decreases a@.len() - i,
    {
        assert(a@.skip(i as int).skip(1) =~= a@.skip(i + 1));
        assert(b@.skip(i as int).skip(1) =~= b@.skip(i + 1));
        i += 1;
    }
    if i == b.len() {
        false
    } else if i == a.len() {
        true
    } else {
        assert(a@.skip(i as int)[0] == a@[i as int]);
        assert(b@.skip(i as int)[0] == b@[i as int]);
        is_lower(a[i], b[i])
    }
}

/// The `i`th name is the first, in order, of the render nodes among the first `n`.
pub open spec fn least_node(names: Seq<String>, n: int, i: int) -> bool {
    &&& 0 <= i < n
    &&& names_render_node(names[i]@)
    &&& forall|j: int|
        0 <= j < n && names_render_node((#[trigger] names[j])@) ==> !comes_first(
            names[j]@,
            names[i]@,
        )
}

/// The path of a device node.
pub open spec fn dri_path(name: Seq<char>) -> Seq<char> {
    "/dev/dri/"@ + name
}

/// What a request for a render node comes to: the node of the card chosen; else, where no token
/// asks for a particular one, the first render node there is.
pub open spec fn selection(
    token: Option<&str>,
    cards: Seq<Card>,
    dri: Option<Vec<String>>,
    r: Option<Seq<char>>,
) -> bool {
    if exists|i: int| chosen(cards, token, i) {
        exists|i: int|
            #[trigger] chosen(cards, token, i) && r == Some(
                dri_path(first_node(cards[i].nodes@, 0)->0),
            )
    } else if token is Some || dri is None {
        r is None
    } else {
        let names = dri->0@;
        match r {
            Some(path) => exists|i: int|
                #[trigger] least_node(names, names.len() as int, i) && path == dri_path(names[i]@),
            None => forall|i: int| 0 <= i < names.len() ==> !names_render_node(
                (#[trigger] names[i])@,
            ),
        }
    }
}

fn number_of(name: &str) -> (r: Option<u64>)
    ensures
        r matches Some(v) ==> card_number(name@) == Some(v as nat),
        r is None ==> card_number(name@) is None,
{
    let s = chars_of(name);
    let key = chars_of("card");
    if starts_with(s.as_slice(), key.as_slice()) {
        let rest = slice_subrange(s.as_slice(), key.len(), s.len());
        assert(rest@ =~= name@.skip("card"@.len() as int));
        parse_unsigned(rest, 10, 0xffff_ffff)
    } else {
        None
    }
}

fn is_render_node(name: &str) -> (b: bool)
    ensures
        b == names_render_node(name@),
{
    let s = chars_of(name);
    let key = chars_of("renderD");
    starts_with(s.as_slice(), key.as_slice())
}

fn node_of(nodes: &[(String, bool)]) -> (r: Option<usize>)
    ensures
        match r {
            Some(i) => i < nodes@.len() && first_node(nodes@, 0) == Some(nodes@[i as int].0@),
            None => first_node(nodes@, 0) is None,
        },
{
    let mut i: usize = 0;
    while i < nodes.len()
        invariant
            i <= nodes@.len(),
            first_node(nodes@, i as int) == first_node(nodes@, 0),
        decreases nodes@.len() - i,
    {
        if is_render_node(nodes[i].0.as_str()) && nodes[i].1 {
            return Some(i);
        }
        i += 1;
    }
    None
}

fn path_of(name: &str) -> (r: String)
    ensures
        r@ == dri_path(name@),
{
    let mut path = "/dev/dri/".to_owned();
    path.append(name);
    path
}

fn answering(card: &Card, token: Option<&str>) -> (r: Option<(u64, usize)>)
    ensures
        r is Some <==> answers(*card, token),
        r matches Some((number, node)) ==> {
            &&& card_number(card.name@) == Some(number as nat)
            &&& node < card.nodes@.len()
            &&& first_node(card.nodes@, 0) == Some(card.nodes@[node as int].0@)
        },
{
    let number: u64 = match number_of(card.name.as_str()) {
        None => {
            return None;
        },
        Some(n) => n,
    };
    if let Some(t) = token {
        if !card_matches_token(t, &card.identity) {
            return None;
        }
    }
    match node_of(card.nodes.as_slice()) {
        None => None,
        Some(node) => Some((number, node)),
    }
}

/// Resolve a usable render node, where a token asks for one that matches it.
///
/// Cards are walked in numeric order, skipping those without a render node. Where none of them
/// answers and no token asks for a particular one, the nodes under `/dev/dri` are looked at
/// directly (`dri`, `None` where it cannot be read): that fallback has no identity to match.
pub fn auto_select_render_node(
    token: Option<&str>,
    cards: &[Card],
    dri: Option<Vec<String>>,
) -> (r: Option<String>)
    ensures
        selection(
            token,
            cards@,
            dri,
            match r {
                Some(s) => Some(s@),
                None => None,
            },
        ),
{
    let mut best: Option<(usize, u64, usize)> = None;
    let mut i: usize = 0;
    while i < cards.len()
        invariant
            i <= cards@.len(),
            match best {
                Some((at, number, node)) => {
                    &&& at < i
                    &&& chosen(cards@.take(i as int), token, at as int)
                    &&& card_number(cards@[at as int].name@) == Some(number as nat)
                    &&& node < cards@[at as int].nodes@.len()
                    &&& first_node(cards@[at as int].nodes@, 0) == Some(
                        cards@[at as int].nodes@[node as int].0@,
                    )
                },
                None => forall|j: int| 0 <= j < i ==> !answers(#[trigger] cards@[j], token),
            },
        decreases cards@.len() - i,
    {
        let ghost seen = cards@.take(i as int);
        let ghost more = cards@.take(i + 1);
        assert(forall|j: int| 0 <= j < i ==> more[j] == seen[j]);
        assert(forall|j: int| 0 <= j < i ==> cards@[j] == seen[j]);
        match answering(&cards[i], token) {
            None => {
                assert(!answers(more[i as int], token));
            },
            Some((number, node)) => {
                let better = match best {
                    None => true,
                    Some((_, least, _)) => number < least,
                };
                if better {
                    best = Some((i, number, node));
                }
            },
        }
        proof {
            if let Some((best_at, _, _)) = best {
                let at = best_at as int;
                assert forall|j: int|
                    0 <= j < more.len() && answers(#[trigger] more[j], token) implies {
                    let a = card_number(more[at].name@)->0;
                    let b = card_number(more[j].name@)->0;
                    a < b || (a == b && at <= j)
                } by {
                    if j < i {
                        assert(answers(seen[j], token));
                    }
                }
                assert(chosen(more, token, at));
            }
        }
        i += 1;
    }
    assert(cards@.take(cards@.len() as int) =~= cards@);
    if let Some((at, _, node)) = best {
        assert(chosen(cards@, token, at as int));
        return Some(path_of(cards[at].nodes[node].0.as_str()));
    }
    assert(forall|j: int| !chosen(cards@, token, j));
    if token.is_some() {
        return None;
    }
    let names = match &dri {
        None => {
            return None;
        },
        Some(names) => names,
    };
    let mut least: Option<usize> = None;
    let mut k: usize = 0;
    while k < names.len()
        invariant
            k <= names@.len(),
            match least {
                Some(l) => least_node(names@, k as int, l as int),
                None => forall|j: int| 0 <= j < k ==> !names_render_node((#[trigger] names@[j])@),
            },
        decreases names@.len() - k,
    {
        if is_render_node(names[k].as_str()) {
            match least {
                None => {
                    least = Some(k);
                    proof {
                        order_is_irreflexive(names@[k as int]@);
                    }
                },
                Some(l) => {
                    let a = chars_of(names[k].as_str());
                    let b = chars_of(names[l].as_str());
                    if is_first(a.as_slice(), b.as_slice()) {
                        proof {
                            order_is_irreflexive(a@);
                            assert forall|j: int|
                                0 <= j < k + 1 && names_render_node((#[trigger] names@[j])@) implies !comes_first(
                                names@[j]@, a@) by {
                                if comes_first(names@[j]@, a@) {
                                    order_is_transitive(names@[j]@, a@, b@);
                                }
                            }
                        }
                        least = Some(k);
                    }
                },
            }
        }
        k += 1;
    }
    match least {
        None => None,
        Some(l) => {
            assert(least_node(names@, names@.len() as int, l as int));
            Some(path_of(names[l].as_str()))
        },
    }
}

proof fn order_is_irreflexive(a: Seq<char>)
    ensures
        !comes_first(a, a),
    decreases a.len(),
{
    if a.len() > 0 {
        order_is_irreflexive(a.skip(1));
    }
}

/// A renderer's name, in lower case, is that of software.
pub open spec fn software_name(name: Seq<char>) -> bool {
    text::holds(name, "llvmpipe"@) || text::holds(name, "softpipe"@) || text::holds(
        name,
        "swrast"@,
    ) || text::holds(name, "software rasterizer"@)
}

/// Whether a renderer's name, in lower case, is that of software.
pub fn is_lowered_software_renderer(name: &str) -> (b: bool)
    ensures
        b == software_name(name@),
{
    let n = chars_of(name);
    let a = chars_of("llvmpipe");
    let b = chars_of("softpipe");
    let c = chars_of("swrast");
    let d = chars_of("software rasterizer");
    contains(n.as_slice(), a.as_slice()) || contains(n.as_slice(), b.as_slice()) || contains(
        n.as_slice(),
        c.as_slice(),
    ) || contains(n.as_slice(), d.as_slice())
}

/// Whether a renderer is software, whatever the case of its name.
pub fn is_software_renderer(name: &str) -> (b: bool)
    ensures
        b == software_name(lowercase(name@)),
{
    let n = chars_of(name);
    let low = lowered(n.as_slice());
    is_lowered_software_renderer(low.as_str())
}

} // verus!
