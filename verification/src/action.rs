use vstd::prelude::*;

verus! {

/// One action that the VT parser asks of a terminal.
#[allow(inconsistent_fields)]
pub enum Action {
    /// A printable character.
    Print(char),
    /// A C0 or C1 control byte.
    Execute(u8),
    /// Start of a device control string: its parameter groups,
    /// intermediates and final character.
    Hook { params: Vec<Vec<u16>>, intermediates: Vec<u8>, ignore: bool, action: char },
    /// One byte of a device control string.
    Put(u8),
    /// End of a device control string.
    Unhook,
    /// An operating system command, split at `;`.
    OscDispatch { params: Vec<Vec<u8>>, bell_terminated: bool },
    /// A control sequence: parameter groups (sub-parameters grouped),
    /// intermediates and final character.
    CsiDispatch { params: Vec<Vec<u16>>, intermediates: Vec<u8>, ignore: bool, action: char },
    /// An escape sequence: intermediates and final byte.
    EscDispatch { intermediates: Vec<u8>, ignore: bool, byte: u8 },
}

/// The number of device-control bytes among `acts`.
pub open spec fn put_count(acts: Seq<Action>) -> nat
    decreases acts.len(),
{
    if acts.len() == 0 {
        0
    } else {
        (if acts[0] is Put {
            1nat
        } else {
            0nat
        }) + put_count(acts.drop_first())
    }
}

/// Records every action that the parser performs, in order.
pub struct ActionCollector {
    pub actions: Vec<Action>,
}

#[verifier::external_type_specification]
#[verifier::external_body]
pub struct ExVteParams(vte::Params);

#[verifier::external_type_specification]
#[verifier::external_body]
pub struct ExVteParser<const OSC_RAW_BUF_SIZE: usize>(vte::Parser<OSC_RAW_BUF_SIZE>);

impl vte::Perform for ActionCollector {
    #[verifier::external_body]
    fn print(&mut self, c: char) {
        self.actions.push(Action::Print(c));
    }

    #[verifier::external_body]
    fn execute(&mut self, byte: u8) {
        self.actions.push(Action::Execute(byte));
    }

    #[verifier::external_body]
    fn hook(&mut self, params: &vte::Params, intermediates: &[u8], ignore: bool, action: char) {
        let params = params.iter().map(|group| group.to_vec()).collect();
        self.actions.push(Action::Hook { params, intermediates: intermediates.to_vec(), ignore, action });
    }

    #[verifier::external_body]
    fn put(&mut self, byte: u8) {
        self.actions.push(Action::Put(byte));
    }

    #[verifier::external_body]
    fn unhook(&mut self) {
        self.actions.push(Action::Unhook);
    }

    #[verifier::external_body]
    fn osc_dispatch(&mut self, params: &[&[u8]], bell_terminated: bool) {
        let params = params.iter().map(|part| part.to_vec()).collect();
        self.actions.push(Action::OscDispatch { params, bell_terminated });
    }

    #[verifier::external_body]
    fn csi_dispatch(&mut self, params: &vte::Params, intermediates: &[u8], ignore: bool, action: char) {
        let params = params.iter().map(|group| group.to_vec()).collect();
        self.actions.push(
            Action::CsiDispatch { params, intermediates: intermediates.to_vec(), ignore, action },
        );
    }

    #[verifier::external_body]
    fn esc_dispatch(&mut self, intermediates: &[u8], ignore: bool, byte: u8) {
        self.actions.push(Action::EscDispatch { intermediates: intermediates.to_vec(), ignore, byte });
    }
}

/// The actions that a `vte::Parser` performs on `bytes` once it has
/// consumed `consumed` since it was created (`Parser::new`, then
/// `Parser::advance`). The parser's state is a function of the bytes it has
/// consumed, so this is a function of the two byte strings.
pub uninterp spec fn spec_vte_actions(consumed: Seq<u8>, bytes: Seq<u8>) -> Seq<Action>;

/// The actions that a fresh parser performs on `bytes`.
pub open spec fn spec_vte_parse(bytes: Seq<u8>) -> Seq<Action> {
    spec_vte_actions(Seq::empty(), bytes)
}

/// A `vte::Parser` together with the bytes it has consumed since it was
/// created, which its view is.
pub struct VtParser {
    parser: vte::Parser,
    consumed: Ghost<Seq<u8>>,
}

impl View for VtParser {
    type V = Seq<u8>;

    closed spec fn view(&self) -> Seq<u8> {
        self.consumed@
    }
}

/// A parser in its ground state (`vte::Parser::new`): it has consumed
/// nothing.
#[verifier::external_body]
pub(crate) fn new_parser() -> (p: VtParser)
    ensures
        p@ == Seq::<u8>::empty(),
{
    VtParser { parser: vte::Parser::new(), consumed: Ghost(Seq::empty()) }
}

/// Runs a fresh `vte::Parser` over `bytes` and returns what it performed.
/// The parser hands each device-control byte to `put` as it consumes that
/// byte, so there are no more `Put` actions than input bytes.
#[verifier::external_body]
pub(crate) fn vte_parse(bytes: &[u8]) -> (acts: Vec<Action>)
    ensures
        acts@ == spec_vte_actions(Seq::empty(), bytes@),
        put_count(acts@) <= bytes@.len(),
{
    let mut parser = vte::Parser::new();
    let mut collector = ActionCollector { actions: Vec::new() };
    parser.advance(&mut collector, bytes);
    collector.actions
}

/// Feeds `bytes` to the parser (`vte::Parser::advance`) and returns the
/// actions it performed: those that the bytes give after everything the
/// parser consumed before. The parser has then consumed `bytes` as well. As
/// above, there are no more `Put` actions than input bytes.
#[verifier::external_body]
pub(crate) fn vte_advance(parser: &mut VtParser, bytes: &[u8]) -> (acts: Vec<Action>)
    ensures
        acts@ == spec_vte_actions(old(parser)@, bytes@),
        final(parser)@ == old(parser)@ + bytes@,
        put_count(acts@) <= bytes@.len(),
{
    let mut collector = ActionCollector { actions: Vec::new() };
    parser.parser.advance(&mut collector, bytes);
    proof {
        parser.consumed@ = parser.consumed@ + bytes@;
    }
    collector.actions
}

} // verus!
