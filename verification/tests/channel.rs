use concurrency_lessons::channel::{fan_in, receive_one, stream, Channel, ChannelClosed};
use concurrency_lessons::concurrency::{
    first_script, message_passing_example, message_passing_example_two,
    multi_message_sending_example, second_script,
};
use concurrency_lessons::schedule::{Poll, FIRST, MAIN, SECOND};

fn schedules() -> Vec<Vec<usize>> {
    let mut all: Vec<Vec<usize>> = Vec::new();
    all.push(vec![]);
    all.push(vec![MAIN; 20]);
    all.push(vec![FIRST; 20]);
    all.push(vec![SECOND; 20]);
    all.push(vec![FIRST, SECOND, MAIN, FIRST, SECOND, MAIN, FIRST, SECOND, MAIN]);
    all.push(vec![SECOND, SECOND, SECOND, SECOND, SECOND, MAIN, MAIN, MAIN, MAIN, MAIN, MAIN]);
    all.push(vec![5, usize::MAX, MAIN, 3, SECOND, FIRST]);
    let mut seed: u64 = 777;
    let mut n = 0;
    while n < 100 {
        let mut s = Vec::new();
        let mut k = 0;
        while k < 25 {
            seed = seed.wrapping_mul(6364136223846793005).wrapping_add(1442695040888963407);
            s.push(((seed >> 33) % 4) as usize);
            k += 1;
        }
        all.push(s);
        n += 1;
    }
    all
}

fn keeps_order(received: &Vec<&str>, sent: &Vec<&str>) -> bool {
    let mut next = 0;
    for value in received {
        if next < sent.len() && *value == sent[next] {
            next += 1;
        }
    }
    next == sent.len()
}

#[test]
fn new_channel_is_empty_and_open() {
    let mut c: Channel<u8> = Channel::new();
    assert_eq!(c.next(), Poll::Pending);
    assert_eq!(c.recv(), Poll::Pending);
}

#[test]
fn values_are_received_first_in_first_out() {
    let mut c: Channel<u8> = Channel::new();
    c.send(1);
    c.send(2);
    c.send(3);
    assert_eq!(c.recv(), Poll::Ready(Ok(1)));
    assert_eq!(c.next(), Poll::Ready(Some(2)));
    c.send(4);
    assert_eq!(c.recv(), Poll::Ready(Ok(3)));
    assert_eq!(c.recv(), Poll::Ready(Ok(4)));
    assert_eq!(c.recv(), Poll::Pending);
}

#[test]
fn single_producer_stream_yields_what_was_sent_and_ends() {
    let mut c: Channel<&str> = Channel::new();
    c.send("v1");
    c.send("v2");
    c.send("v3");
    c.drop_sender();
    assert_eq!(c.next(), Poll::Ready(Some("v1")));
    assert_eq!(c.next(), Poll::Ready(Some("v2")));
    assert_eq!(c.next(), Poll::Ready(Some("v3")));
    assert_eq!(c.next(), Poll::Ready(None));
    assert_eq!(c.next(), Poll::Ready(None));
}

#[test]
fn stream_delivers_in_order_under_every_schedule() {
    for schedule in schedules() {
        assert_eq!(stream(vec!["v1", "v2", "v3"], &schedule), vec!["v1", "v2", "v3"]);
    }
    assert_eq!(stream(Vec::<u8>::new(), &vec![MAIN, FIRST]), vec![]);
}

#[test]
fn receive_on_a_closed_empty_channel_fails() {
    let mut c: Channel<u8> = Channel::new();
    c.drop_sender();
    assert_eq!(c.recv(), Poll::Ready(Err(ChannelClosed)));
}

#[test]
fn receive_after_sender_dropped_without_sending_fails() {
    for schedule in schedules() {
        assert_eq!(receive_one::<u8>(None, &schedule), Err(ChannelClosed));
    }
}

#[test]
fn receive_one_yields_the_message() {
    for schedule in schedules() {
        assert_eq!(receive_one(Some(9), &schedule), Ok(9));
    }
}

#[test]
fn channel_stays_open_while_a_clone_of_the_sender_lives() {
    let mut c: Channel<u8> = Channel::new();
    c.clone_sender();
    c.drop_sender();
    assert_eq!(c.next(), Poll::Pending);
    c.send(8);
    c.drop_sender();
    assert_eq!(c.next(), Poll::Ready(Some(8)));
    assert_eq!(c.next(), Poll::Ready(None));
}

#[test]
fn queued_values_outlive_their_senders() {
    let mut c: Channel<u8> = Channel::new();
    c.send(1);
    c.drop_sender();
    assert_eq!(c.recv(), Poll::Ready(Ok(1)));
    assert_eq!(c.recv(), Poll::Ready(Err(ChannelClosed)));
}

#[test]
fn two_producers_are_interleaved_with_each_order_kept() {
    let a = vec!["a1", "a2"];
    let b = vec!["b1", "b2"];
    for schedule in schedules() {
        let received = fan_in(a.clone(), b.clone(), &schedule);
        assert_eq!(received.len(), 4);
        assert!(keeps_order(&received, &a));
        assert!(keeps_order(&received, &b));
    }
}

#[test]
fn fan_in_follows_the_schedule() {
    let received = fan_in(vec!["a1", "a2"], vec!["b1", "b2"], &vec![SECOND, FIRST, MAIN, SECOND]);
    assert_eq!(received, vec!["b1", "a1", "b2", "a2"]);
    let received = fan_in(vec!["a1", "a2"], vec!["b1", "b2"], &vec![]);
    assert_eq!(received, vec!["a1", "a2", "b1", "b2"]);
    let received = fan_in(vec!["a1", "a2"], vec!["b1", "b2"], &vec![SECOND, SECOND, SECOND]);
    assert_eq!(received, vec!["b1", "b2", "a1", "a2"]);
}

#[test]
fn fan_in_with_a_silent_producer() {
    assert_eq!(fan_in(vec![], vec![1, 2], &vec![FIRST, MAIN]), vec![1, 2]);
    assert_eq!(fan_in(vec![1, 2], vec![], &vec![SECOND, MAIN]), vec![1, 2]);
    assert_eq!(fan_in(Vec::<u8>::new(), vec![], &vec![MAIN]), vec![]);
}

#[test]
fn scripts_hold_the_messages() {
    assert_eq!(first_script(), vec!["hi", "from", "the", "thread"]);
    assert_eq!(second_script(), vec!["more", "messages", "for", "you"]);
}

#[test]
fn single_message_is_received() {
    for schedule in schedules() {
        assert_eq!(message_passing_example(&schedule), "hi");
    }
}

#[test]
fn four_messages_are_streamed_in_order() {
    for schedule in schedules() {
        assert_eq!(message_passing_example_two(&schedule), vec!["hi", "from", "the", "thread"]);
    }
}

#[test]
fn eight_messages_from_two_producers_arrive() {
    let first = vec!["hi", "from", "the", "thread"];
    let second = vec!["more", "messages", "for", "you"];
    for schedule in schedules() {
        let received = multi_message_sending_example(&schedule);
        let received: Vec<&str> = received.iter().map(|s| s.as_str()).collect();
        assert_eq!(received.len(), 8);
        assert!(keeps_order(&received, &first));
        assert!(keeps_order(&received, &second));
    }
}

#[test]
fn two_producers_taking_turns() {
    let schedule = vec![FIRST, SECOND, FIRST, SECOND, FIRST, SECOND, FIRST, SECOND];
    assert_eq!(
        multi_message_sending_example(&schedule),
        vec!["hi", "more", "from", "messages", "the", "for", "thread", "you"]
    );
}
