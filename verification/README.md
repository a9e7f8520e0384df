# WMATA fire alarm: subscriptions

People subscribe by email to the metro stations that they want to hear about. Whoever changes a
subscription enters a code that was mailed to its address and that waits for a minute.

`src/` is the verified library. It holds the rules and never touches the network or the database.
Of its surroundings it draws a random code, tells a timer to stop, and reads the clock for the date
of a mail:

- `address`, `mail`, `submission`: checking an address, drawing a code and composing its mail;
- `pending`, `timer`, `auth`: the codes that wait, and who is admitted;
- `selection`, `update`, `removal`, `directory`: which stations are selected, and what is asked of
  the database, one request at a time (`exchange`);
- `store`, `update_laws`: what the database is expected to do, and what an update does to it as a
  whole;
- `error`, `text`: what the subscriber is told.

`app/` is the web service around it: the command line, the routes, the mail transport, the timers
and the SQL statements.
