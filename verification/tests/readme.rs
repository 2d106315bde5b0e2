use areamy::node::line::work::make_line;
use areamy::node::line::LineReader;
use areamy::{Connect, Error, Flush, LineRoutine, Message, Name, Next, Send, Sink, Source, Unary, Workable};
use std::collections::VecDeque;

struct AddOne {
    out: VecDeque<usize>,
}

impl AddOne {
    fn new() -> Self {
        AddOne { out: VecDeque::new() }
    }
}

impl Send<usize> for AddOne {
    fn send(&mut self, message: usize) -> Result<(), Error> {
        self.out.push_back(message + 1);
        Ok(())
    }
}

impl Next<usize> for AddOne {
    fn next(&mut self) -> Result<Option<usize>, Error> {
        Ok(self.out.pop_front())
    }
}

impl Flush for AddOne {
    fn flush(&mut self) -> Result<(), Error> {
        Ok(())
    }
}

impl Name for AddOne {}
impl LineRoutine<usize, usize> for AddOne {}

#[test]
fn readme_three_node_chain() -> Result<(), Error> {
    let in_node = make_line::<usize, usize, &'static str, _>(AddOne::new());
    let mut middle_node = make_line::<usize, usize, &'static str, _>(AddOne::new());
    let mut out_node = make_line::<usize, usize, &'static str, _>(AddOne::new());

    let source = Source::new::<Unary, _>(&*in_node)?;

    Connect::<usize, &'static str>::bidi(in_node, &mut *middle_node)?;
    Connect::<usize, &'static str>::bidi(middle_node, &mut *out_node)?;

    let sink = Sink::new(out_node)?;

    let mut reader = LineReader::new(source, sink);

    reader.push(Message::Data(1))?;
    reader.push(Message::Data(2))?;

    assert_eq!(reader.read().unwrap(), Message::Data(4));
    assert_eq!(reader.read().unwrap(), Message::Data(5));

    // A marker comes out after the data pushed before it, through every node.
    reader.push(Message::Data(3))?;
    let data: Vec<usize> = reader.mark("m")?;
    assert_eq!(data, vec![6]);
    Ok(())
}

#[test]
fn readme_push_connection() -> Result<(), Error> {
    let in_node = make_line::<usize, usize, &'static str, _>(AddOne::new());
    let mut middle_node = make_line::<usize, usize, &'static str, _>(AddOne::new());
    let out_node = make_line::<usize, usize, &'static str, _>(AddOne::new());

    let source = Source::new::<Unary, _>(&*in_node)?;
    Connect::<usize, &'static str>::bidi(in_node, &mut *middle_node)?;
    // The middle node pushes into the out node but is worked by its owner.
    areamy::make_push::<usize, &'static str, Unary, _, _>(&mut *middle_node, &*out_node)?;

    let sink = Sink::new(out_node)?;
    let mut reader = LineReader::new(source, sink);

    reader.push(Message::Data(1))?;
    reader.push(Message::Data(2))?;

    // Work the middle node here, as a helper thread would.
    middle_node.work()?;
    middle_node.work()?;

    assert_eq!(reader.read().unwrap(), Message::Data(4));
    assert_eq!(reader.read().unwrap(), Message::Data(5));
    Ok(())
}

